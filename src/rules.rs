//! The rule entities: selectors, properties, conditions and rules.
use vstd::prelude::*;
use crate::text::chars_of;

verus! {

// ---------------------------------------------------------------- selectors

/// The parts of `s` between dots, in order (`"a..b"` has three, the middle one empty).
pub open spec fn dot_parts(s: Seq<char>) -> Seq<Seq<char>>
    decreases s.len(),
{
    if s.len() == 0 {
        seq![Seq::empty()]
    } else {
        let p = dot_parts(s.drop_last());
        if s.last() == '.' {
            p.push(Seq::empty())
        } else {
            p.update(p.len() - 1, p.last().push(s.last()))
        }
    }
}

pub open spec fn wildcard() -> Seq<char> {
    seq!['*']
}

/// Field `k` of a dotted selector text: its `k`-th part, or the wildcard
/// where the text has fewer parts.
pub open spec fn selector_field(s: Seq<char>, k: int) -> Seq<char> {
    if k < dot_parts(s).len() {
        dot_parts(s)[k]
    } else {
        wildcard()
    }
}

/// A four-field pattern `cloud.group.kind.name` naming the resources a rule targets.
#[derive(Debug, PartialEq)]
pub struct Selector {
    pub cloud: String,
    pub group: String,
    pub kind: String,
    pub name: String,
    /// The dotted text the fields were read from.
    pub full_selector: String,
}

impl Selector {
    /// The selector holds the fields of the dotted text `s`.
    pub open spec fn read_from(&self, s: Seq<char>) -> bool {
        &&& self.full_selector@ == s
        &&& self.cloud@ == selector_field(s, 0)
        &&& self.group@ == selector_field(s, 1)
        &&& self.kind@ == selector_field(s, 2)
        &&& self.name@ == selector_field(s, 3)
    }

    /// Reads a selector from its dotted text: the fields are the parts between
    /// dots, and a field beyond the parts given is the wildcard `*`.
    pub fn new(text: &str) -> (r: Selector)
        ensures
            r.read_from(text@),
    {
        let cs = chars_of(text);
        let mut parts: Vec<String> = Vec::new();
        let mut start: usize = 0;
        let mut j: usize = 0;
        proof {
            assert(cs@.take(0) =~= Seq::<char>::empty());
            assert(parts@.map_values(|p: String| p@).push(cs@.subrange(0, 0)) =~= dot_parts(
                cs@.take(0),
            ));
        }
        while j < cs.len()
            invariant
                cs@ == text@,
                start <= j <= cs@.len(),
                parts@.map_values(|p: String| p@).push(cs@.subrange(start as int, j as int))
                    == dot_parts(cs@.take(j as int)),
            decreases cs@.len() - j,
        {
            proof {
                let t = cs@.take(j + 1);
                assert(t.drop_last() =~= cs@.take(j as int));
                assert(t.last() == cs@[j as int]);
            }
            if cs[j] == '.' {
                let part = text.substring_char(start, j).to_owned();
                parts.push(part);
                start = j + 1;
                proof {
                    assert(cs@.subrange(start as int, j + 1) =~= Seq::<char>::empty());
                    assert(parts@.map_values(|p: String| p@) =~= views_of(parts@));
                }
            } else {
                proof {
                    assert(cs@.subrange(start as int, j + 1) =~= cs@.subrange(
                        start as int,
                        j as int,
                    ).push(cs@[j as int]));
                }
            }
            j = j + 1;
        }
        let last = text.substring_char(start, j).to_owned();
        parts.push(last);
        proof {
            assert(cs@.take(j as int) =~= text@);
            assert(parts@.map_values(|p: String| p@) =~= views_of(parts@));
        }
        let n = parts.len();
        let cloud = if n > 0 { parts[0].clone() } else { String::from_str("*") };
        let group = if n > 1 { parts[1].clone() } else { String::from_str("*") };
        let kind = if n > 2 { parts[2].clone() } else { String::from_str("*") };
        let name = if n > 3 { parts[3].clone() } else { String::from_str("*") };
        proof {
            reveal_strlit("*");
            assert("*"@ =~= wildcard());
        }
        Selector { cloud, group, kind, name, full_selector: text.to_owned() }
    }

    /// The text the selector was read from.
    pub fn as_str(&self) -> (r: &str)
        ensures
            r@ == self.full_selector@,
    {
        self.full_selector.as_str()
    }
}

spec fn views_of(parts: Seq<String>) -> Seq<Seq<char>> {
    parts.map_values(|p: String| p@)
}

/// What a selector holds, as sequences of characters.
pub struct SelectorModel {
    pub cloud: Seq<char>,
    pub group: Seq<char>,
    pub kind: Seq<char>,
    pub name: Seq<char>,
    pub text: Seq<char>,
}

impl View for Selector {
    type V = SelectorModel;

    open spec fn view(&self) -> SelectorModel {
        SelectorModel {
            cloud: self.cloud@,
            group: self.group@,
            kind: self.kind@,
            name: self.name@,
            text: self.full_selector@,
        }
    }
}

impl Clone for Selector {
    fn clone(&self) -> (r: Selector)
        ensures
            r@ == self@,
    {
        Selector {
            cloud: self.cloud.clone(),
            group: self.group.clone(),
            kind: self.kind.clone(),
            name: self.name.clone(),
            full_selector: self.full_selector.clone(),
        }
    }
}

// --------------------------------------------------------------- properties

/// The attribute of a resource that a rule inspects.
#[derive(Debug, PartialEq)]
pub enum Property {
    Name,
    Kind,
    Group,
    Custom(String),
}

pub enum PropertyModel {
    Name,
    Kind,
    Group,
    Custom(Seq<char>),
}

impl View for Property {
    type V = PropertyModel;

    open spec fn view(&self) -> PropertyModel {
        match self {
            Property::Name => PropertyModel::Name,
            Property::Kind => PropertyModel::Kind,
            Property::Group => PropertyModel::Group,
            Property::Custom(k) => PropertyModel::Custom(k@),
        }
    }
}

/// The property a token names: `name`, `type` and `group` are the built-in
/// ones, anything else is the key of a custom attribute.
pub open spec fn property_of(tok: Seq<char>) -> PropertyModel {
    if tok == "name"@ {
        PropertyModel::Name
    } else if tok == "type"@ {
        PropertyModel::Kind
    } else if tok == "group"@ {
        PropertyModel::Group
    } else {
        PropertyModel::Custom(tok)
    }
}

impl Property {
    /// Resolves a property token.
    pub fn from_token(tok: &str) -> (r: Property)
        ensures
            r@ == property_of(tok@),
    {
        let t = tok.to_owned();
        if t == String::from_str("name") {
            Property::Name
        } else if t == String::from_str("type") {
            Property::Kind
        } else if t == String::from_str("group") {
            Property::Group
        } else {
            Property::Custom(t)
        }
    }
}

impl Clone for Property {
    fn clone(&self) -> (r: Property)
        ensures
            r@ == self@,
    {
        match self {
            Property::Name => Property::Name,
            Property::Kind => Property::Kind,
            Property::Group => Property::Group,
            Property::Custom(k) => Property::Custom(k.clone()),
        }
    }
}

// ----------------------------------------------------------------- patterns

/// `regex::Regex`, a compiled regular expression, carried as an opaque value.
#[verifier::external_type_specification]
#[verifier::external_body]
pub struct ExRegex(regex::Regex);

/// `regex::Error`, why a pattern does not compile, carried as an opaque value.
#[verifier::external_type_specification]
#[verifier::external_body]
pub struct ExRegexError(regex::Error);

/// Relies on `Regex`'s derived `Clone`; nothing is claimed of the copy.
pub assume_specification[ <regex::Regex as Clone>::clone ](r: &regex::Regex) -> regex::Regex;

/// Whether `regex::Regex::new` accepts the pattern `p`.
pub uninterp spec fn pattern_compiles(p: Seq<char>) -> bool;

/// Whether the regular expression `p` matches somewhere in `text`, as
/// `regex::Regex::is_match` decides it (an unanchored search).
pub uninterp spec fn pattern_finds(p: Seq<char>, text: Seq<char>) -> bool;

/// Relies on `regex::Regex::new`: it compiles `p`, or reports why it cannot,
/// and which of the two depends on `p` alone.
#[verifier::external_body]
fn compile_regex(p: &str) -> (r: Result<regex::Regex, regex::Error>)
    ensures
        r.is_ok() == pattern_compiles(p@),
{
    regex::Regex::new(p)
}

/// A compiled regular expression together with its source text.
#[derive(Debug)]
pub struct Pattern {
    text: String,
    compiled: regex::Regex,
}

impl View for Pattern {
    type V = Seq<char>;

    closed spec fn view(&self) -> Seq<char> {
        self.text@
    }
}

/// Relies on `regex::Regex::is_match`. `Pattern`'s fields are private and only
/// `Pattern::compile` and `clone` build one, so `compiled` is always what
/// `Regex::new` made of `text`.
#[verifier::external_body]
fn pattern_is_match(p: &Pattern, text: &str) -> (r: bool)
    ensures
        r == pattern_finds(p@, text@),
{
    p.compiled.is_match(text)
}

impl Pattern {
    /// Compiles `text`; `None` where the regular expression is invalid.
    pub fn compile(text: &str) -> (r: Option<Pattern>)
        ensures
            r.is_some() == pattern_compiles(text@),
            r matches Some(p) ==> p@ == text@,
    {
        match compile_regex(text) {
            Ok(compiled) => Some(Pattern { text: text.to_owned(), compiled }),
            Err(_) => None,
        }
    }

    /// The source text of the pattern.
    pub fn as_str(&self) -> (r: &str)
        ensures
            r@ == self@,
    {
        self.text.as_str()
    }

    /// Whether the pattern matches somewhere in `text`.
    pub fn is_match(&self, text: &str) -> (r: bool)
        ensures
            r == pattern_finds(self@, text@),
    {
        pattern_is_match(self, text)
    }
}

impl Clone for Pattern {
    fn clone(&self) -> (r: Pattern)
        ensures
            r@ == self@,
    {
        Pattern { text: self.text.clone(), compiled: self.compiled.clone() }
    }
}

// --------------------------------------------------------------- conditions

/// The predicate a property's value must satisfy.
#[derive(Debug)]
pub enum Condition {
    /// The value is exactly this string.
    Equal(String),
    /// The pattern matches somewhere in the value.
    Match(Pattern),
}

/// A condition as text: the expected string, or the pattern's source.
pub enum ConditionModel {
    Equal(Seq<char>),
    Match(Seq<char>),
}

impl View for Condition {
    type V = ConditionModel;

    open spec fn view(&self) -> ConditionModel {
        match self {
            Condition::Equal(e) => ConditionModel::Equal(e@),
            Condition::Match(p) => ConditionModel::Match(p@),
        }
    }
}

/// Whether a string value meets a condition.
pub open spec fn condition_holds(c: ConditionModel, value: Seq<char>) -> bool {
    match c {
        ConditionModel::Equal(e) => e == value,
        ConditionModel::Match(p) => pattern_finds(p, value),
    }
}

impl Condition {
    /// Whether `value` meets the condition: equality is exact and
    /// case-sensitive, a pattern is searched for anywhere in `value`.
    pub fn is_compliant(&self, value: &str) -> (r: bool)
        ensures
            r == condition_holds(self@, value@),
    {
        match self {
            Condition::Equal(expected) => {
                let v = value.to_owned();
                *expected == v
            },
            Condition::Match(p) => p.is_match(value),
        }
    }
}

impl Clone for Condition {
    fn clone(&self) -> (r: Condition)
        ensures
            r@ == self@,
    {
        match self {
            Condition::Equal(e) => Condition::Equal(e.clone()),
            Condition::Match(p) => Condition::Match(p.clone()),
        }
    }
}

impl PartialEq for Condition {
    /// Two conditions are equal when they are of one kind and their texts
    /// agree; patterns are compared by their source text.
    fn eq(&self, other: &Condition) -> (r: bool)
        ensures
            r == (self@ == other@),
    {
        match (self, other) {
            (Condition::Equal(a), Condition::Equal(b)) => *a == *b,
            (Condition::Match(a), Condition::Match(b)) => {
                let x = a.as_str().to_owned();
                let y = b.as_str().to_owned();
                x == y
            },
            _ => false,
        }
    }
}

impl vstd::std_specs::cmp::PartialEqSpecImpl for Condition {
    open spec fn obeys_eq_spec() -> bool {
        true
    }

    open spec fn eq_spec(&self, other: &Condition) -> bool {
        self@ == other@
    }
}

// -------------------------------------------------------------------- rules

/// One compliance check: resources that the selector names must have a
/// property that meets the condition.
#[derive(Debug, PartialEq)]
pub struct Rule {
    pub selector: Selector,
    pub property: Property,
    pub condition: Condition,
}

pub struct RuleModel {
    pub selector: SelectorModel,
    pub property: PropertyModel,
    pub condition: ConditionModel,
}

impl View for Rule {
    type V = RuleModel;

    open spec fn view(&self) -> RuleModel {
        RuleModel {
            selector: self.selector@,
            property: self.property@,
            condition: self.condition@,
        }
    }
}

/// How a report names a property.
pub open spec fn property_label(p: PropertyModel) -> Seq<char> {
    match p {
        PropertyModel::Name => "Name"@,
        PropertyModel::Kind => "Kind"@,
        PropertyModel::Group => "Group"@,
        PropertyModel::Custom(k) => "Custom(\""@ + k + "\")"@,
    }
}

/// How a report states a rule: `Expected <property> to equal <value>` or
/// `Expected <property> to match /<pattern>/`.
pub open spec fn rule_description(r: RuleModel) -> Seq<char> {
    "Expected "@ + property_label(r.property) + match r.condition {
        ConditionModel::Equal(v) => " to equal "@ + v,
        ConditionModel::Match(p) => " to match /"@ + p + "/"@,
    }
}

impl Property {
    /// How a report names the property.
    pub fn label(&self) -> (r: String)
        ensures
            r@ == property_label(self@),
    {
        match self {
            Property::Name => String::from_str("Name"),
            Property::Kind => String::from_str("Kind"),
            Property::Group => String::from_str("Group"),
            Property::Custom(k) => {
                let mut out = String::from_str("Custom(\"");
                out.append(k.as_str());
                out.append("\")");
                out
            },
        }
    }
}

impl Rule {
    /// The line a report gives the rule.
    pub fn describe(&self) -> (r: String)
        ensures
            r@ == rule_description(self@),
    {
        let mut out = String::from_str("Expected ");
        let label = self.property.label();
        out.append(label.as_str());
        match &self.condition {
            Condition::Equal(v) => {
                out.append(" to equal ");
                out.append(v.as_str());
                proof {
                    assert(out@ =~= rule_description(self@));
                }
            },
            Condition::Match(p) => {
                out.append(" to match /");
                out.append(p.as_str());
                out.append("/");
                proof {
                    assert(out@ =~= rule_description(self@));
                }
            },
        }
        out
    }
}

impl Clone for Rule {
    fn clone(&self) -> (r: Rule)
        ensures
            r@ == self@,
    {
        Rule {
            selector: self.selector.clone(),
            property: self.property.clone(),
            condition: self.condition.clone(),
        }
    }
}

} // verus!
