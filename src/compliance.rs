//! Evaluating rules against resources, and tallying the results over a group.
use vstd::prelude::*;
use crate::azurerm::Resource;
use crate::rules::{Rule, RuleModel, condition_holds};

verus! {

/// Whether a rule's selector names the resource.
pub open spec fn rule_applies(res: Resource, r: RuleModel) -> bool {
    res.selected_by(r.selector)
}

/// Whether the resource meets the rule's condition: the property must be a
/// string, and the condition must hold of it.
pub open spec fn rule_met(res: Resource, r: RuleModel) -> bool {
    match res.property_text(r.property) {
        Some(v) => condition_holds(r.condition, v),
        None => false,
    }
}

/// The rules that apply to the resource and that it meets, in order.
pub open spec fn met_rules(res: Resource, rs: Seq<RuleModel>) -> Seq<RuleModel>
    decreases rs.len(),
{
    if rs.len() == 0 {
        Seq::empty()
    } else {
        let prior = met_rules(res, rs.drop_last());
        if rule_applies(res, rs.last()) && rule_met(res, rs.last()) {
            prior.push(rs.last())
        } else {
            prior
        }
    }
}

/// The rules that apply to the resource and that it fails, in order.
pub open spec fn unmet_rules(res: Resource, rs: Seq<RuleModel>) -> Seq<RuleModel>
    decreases rs.len(),
{
    if rs.len() == 0 {
        Seq::empty()
    } else {
        let prior = unmet_rules(res, rs.drop_last());
        if rule_applies(res, rs.last()) && !rule_met(res, rs.last()) {
            prior.push(rs.last())
        } else {
            prior
        }
    }
}

/// Where one rule leaves a resource.
#[derive(Clone, Copy, PartialEq, Eq, Structural, Debug)]
pub enum RuleOutcome {
    /// The selector does not name the resource: the rule is left out.
    NotApplicable,
    /// The rule applies and the resource meets it.
    Compliant,
    /// The rule applies and the resource fails it.
    Noncompliant,
}

pub open spec fn outcome_of(applies: bool, met: bool) -> RuleOutcome {
    if !applies {
        RuleOutcome::NotApplicable
    } else if met {
        RuleOutcome::Compliant
    } else {
        RuleOutcome::Noncompliant
    }
}

/// The outcome of a rule, from whether it applies and whether its condition
/// holds of the property's value.
pub fn classify(applies: bool, met: bool) -> (r: RuleOutcome)
    ensures
        r == outcome_of(applies, met),
{
    if !applies {
        RuleOutcome::NotApplicable
    } else if met {
        RuleOutcome::Compliant
    } else {
        RuleOutcome::Noncompliant
    }
}

pub open spec fn rule_models(v: Seq<Rule>) -> Seq<RuleModel> {
    v.map_values(|r: Rule| r@)
}

/// How one resource fared: the applicable rules it meets and those it fails.
#[derive(Debug)]
pub struct ResourceCompliance {
    pub resource_name: String,
    pub resource_type: String,
    pub compliant_rules: Vec<Rule>,
    pub noncompliant_rules: Vec<Rule>,
}

/// Evaluates each rule against the resource. A rule whose selector does not
/// name the resource is left out; one that does goes to the compliant rules
/// where the resource meets its condition, and to the noncompliant ones
/// otherwise (a missing or non-string property never meets a condition).
/// Both lists keep the order of `rules`.
pub fn evaluate_rules(resource: &Resource, rules: &Vec<Rule>) -> (r: ResourceCompliance)
    ensures
        r.resource_name@ == resource.id.name@,
        r.resource_type@ == resource.id.kind@,
        rule_models(r.compliant_rules@) == met_rules(*resource, rule_models(rules@)),
        rule_models(r.noncompliant_rules@) == unmet_rules(*resource, rule_models(rules@)),
{
    let mut compliant_rules: Vec<Rule> = Vec::new();
    let mut noncompliant_rules: Vec<Rule> = Vec::new();
    let mut i: usize = 0;
    proof {
        assert(rule_models(rules@).take(0) =~= Seq::<RuleModel>::empty());
        assert(rule_models(compliant_rules@) =~= Seq::<RuleModel>::empty());
        assert(rule_models(noncompliant_rules@) =~= Seq::<RuleModel>::empty());
    }
    while i < rules.len()
        invariant
            i <= rules@.len(),
            rule_models(compliant_rules@) == met_rules(*resource, rule_models(rules@).take(i as int)),
            rule_models(noncompliant_rules@) == unmet_rules(
                *resource,
                rule_models(rules@).take(i as int),
            ),
        decreases rules@.len() - i,
    {
        let rule = &rules[i];
        let ghost m = rule_models(rules@);
        proof {
            assert(m.take(i + 1).drop_last() =~= m.take(i as int));
            assert(m.take(i + 1).last() == rule@);
        }
        let ghost c0 = rule_models(compliant_rules@);
        let ghost n0 = rule_models(noncompliant_rules@);
        let applies = resource.selector_applies(&rule.selector);
        let met = applies && {
            let prop = resource.get_property(&rule.property);
            match prop.as_str() {
                Some(value) => rule.condition.is_compliant(value),
                None => false,
            }
        };
        match classify(applies, met) {
            RuleOutcome::Compliant => {
                compliant_rules.push(rule.clone());
                proof {
                    assert(rule_models(compliant_rules@) =~= c0.push(rule@));
                }
            },
            RuleOutcome::Noncompliant => {
                noncompliant_rules.push(rule.clone());
                proof {
                    assert(rule_models(noncompliant_rules@) =~= n0.push(rule@));
                }
            },
            RuleOutcome::NotApplicable => {},
        }
        i = i + 1;
    }
    proof {
        assert(rule_models(rules@).take(i as int) =~= rule_models(rules@));
    }
    ResourceCompliance {
        resource_name: resource.name().to_owned(),
        resource_type: resource.kind().to_owned(),
        compliant_rules,
        noncompliant_rules,
    }
}

/// Counts over the resources of a group.
#[derive(Debug)]
pub struct ResourceGroupCompliance {
    /// Resources evaluated.
    pub resource_count: usize,
    /// Resources that fail none of the rules that apply to them.
    pub compliant_resources: usize,
    /// Resources that fail at least one rule that applies to them.
    pub noncompliant_resources: usize,
    /// Rule evaluations, over all resources (one rule on three resources is three).
    pub evaluated_rules: usize,
    /// Evaluations that found the resource compliant.
    pub compliant_rule_evaluations: usize,
    /// Evaluations that found the resource noncompliant.
    pub noncompliant_rule_evaluations: usize,
}

impl Default for ResourceGroupCompliance {
    /// All counts zero.
    fn default() -> (r: ResourceGroupCompliance)
        ensures
            r.resource_count == 0,
            r.compliant_resources == 0,
            r.noncompliant_resources == 0,
            r.evaluated_rules == 0,
            r.compliant_rule_evaluations == 0,
            r.noncompliant_rule_evaluations == 0,
    {
        ResourceGroupCompliance {
            resource_count: 0,
            compliant_resources: 0,
            noncompliant_resources: 0,
            evaluated_rules: 0,
            compliant_rule_evaluations: 0,
            noncompliant_rule_evaluations: 0,
        }
    }
}

/// The counts fit the tally of one more resource that was evaluated against
/// `n` rules or fewer.
pub open spec fn has_room(g: ResourceGroupCompliance, n: nat) -> bool {
    &&& g.resource_count + 1 <= usize::MAX
    &&& g.evaluated_rules + n <= usize::MAX
    &&& g.compliant_rule_evaluations + n <= usize::MAX
    &&& g.noncompliant_rule_evaluations + n <= usize::MAX
    &&& g.compliant_resources + 1 <= usize::MAX
    &&& g.noncompliant_resources + 1 <= usize::MAX
}

/// `g2` is `g` with one more resource tallied, whose evaluation is `rc`.
pub open spec fn tallied(g: ResourceGroupCompliance, rc: ResourceCompliance, g2: ResourceGroupCompliance) -> bool {
    let c = rc.compliant_rules@.len();
    let n = rc.noncompliant_rules@.len();
    &&& g2.resource_count == g.resource_count + 1
    &&& g2.compliant_resources == g.compliant_resources + (if n == 0 { 1int } else { 0int })
    &&& g2.noncompliant_resources == g.noncompliant_resources + (if n == 0 { 0int } else { 1int })
    &&& g2.evaluated_rules == g.evaluated_rules + c + n
    &&& g2.compliant_rule_evaluations == g.compliant_rule_evaluations + c
    &&& g2.noncompliant_rule_evaluations == g.noncompliant_rule_evaluations + n
}

/// Tallies one more resource. It counts as a compliant resource when it fails
/// none of the rules that apply to it, and as a noncompliant one otherwise;
/// each of its rule evaluations is counted as compliant or noncompliant.
pub fn accumulate_group_compliance(
    group_compliance: ResourceGroupCompliance,
    resource_compliance: &ResourceCompliance,
) -> (r: ResourceGroupCompliance)
    requires
        has_room(
            group_compliance,
            resource_compliance.compliant_rules@.len() + resource_compliance.noncompliant_rules@.len(),
        ),
    ensures
        tallied(group_compliance, *resource_compliance, r),
{
    let c = resource_compliance.compliant_rules.len();
    let n = resource_compliance.noncompliant_rules.len();
    let is_compliant = n == 0;
    ResourceGroupCompliance {
        resource_count: group_compliance.resource_count + 1,
        compliant_resources: group_compliance.compliant_resources + (if is_compliant { 1 } else { 0 }),
        noncompliant_resources: group_compliance.noncompliant_resources + (if is_compliant { 0 } else { 1 }),
        evaluated_rules: group_compliance.evaluated_rules + c + n,
        compliant_rule_evaluations: group_compliance.compliant_rule_evaluations + c,
        noncompliant_rule_evaluations: group_compliance.noncompliant_rule_evaluations + n,
    }
}

/// The share of compliant rule evaluations, in percent, rounded to the
/// nearest whole number (halves up); `None` where nothing was evaluated.
pub open spec fn score_of(compliant: int, evaluated: int) -> Option<int> {
    if evaluated == 0 {
        None
    } else {
        Some((200 * compliant + evaluated) / (2 * evaluated))
    }
}

impl ResourceGroupCompliance {
    /// The compliance score in percent; `None` ("no data") where no rule was
    /// evaluated.
    pub fn compliance_percent(&self) -> (r: Option<u128>)
        ensures
            match score_of(self.compliant_rule_evaluations as int, self.evaluated_rules as int) {
                Some(p) => r == Some(p as u128),
                None => r is None,
            },
    {
        if self.evaluated_rules == 0 {
            None
        } else {
            let c = self.compliant_rule_evaluations as u128;
            let e = self.evaluated_rules as u128;
            assert(200 * c + e <= 201 * 0xffff_ffff_ffff_ffffu128) by (nonlinear_arith)
                requires c <= 0xffff_ffff_ffff_ffffu128, e <= 0xffff_ffff_ffff_ffffu128;
            Some((200 * c + e) / (2 * e))
        }
    }
}

/// Evaluates every resource against the rules, in order, and tallies the
/// results from all-zero counts.
pub fn azure_lint(rules: &Vec<Rule>, resources: &Vec<Resource>) -> (r: (Vec<ResourceCompliance>, ResourceGroupCompliance))
    requires
        resources@.len() * rules@.len() <= usize::MAX,
    ensures
        r.0@.len() == resources@.len(),
        forall|k: int| 0 <= k < resources@.len() ==> {
            let rc = #[trigger] r.0@[k];
            &&& rc.resource_name@ == resources@[k].id.name@
            &&& rc.resource_type@ == resources@[k].id.kind@
            &&& rule_models(rc.compliant_rules@) == met_rules(resources@[k], rule_models(rules@))
            &&& rule_models(rc.noncompliant_rules@) == unmet_rules(resources@[k], rule_models(rules@))
        },
        r.1 == group_tally(r.0@),
{
    let mut out: Vec<ResourceCompliance> = Vec::new();
    let mut group = ResourceGroupCompliance::default();
    let mut i: usize = 0;
    while i < resources.len()
        invariant
            i <= resources@.len(),
            resources@.len() * rules@.len() <= usize::MAX,
            out@.len() == i,
            forall|k: int| 0 <= k < i ==> {
                let rc = #[trigger] out@[k];
                &&& rc.resource_name@ == resources@[k].id.name@
                &&& rc.resource_type@ == resources@[k].id.kind@
                &&& rule_models(rc.compliant_rules@) == met_rules(resources@[k], rule_models(rules@))
                &&& rule_models(rc.noncompliant_rules@) == unmet_rules(resources@[k], rule_models(rules@))
            },
            group == group_tally(out@),
            group.evaluated_rules <= i * rules@.len(),
            group.compliant_rule_evaluations <= i * rules@.len(),
            group.noncompliant_rule_evaluations <= i * rules@.len(),
            group.resource_count == i,
            group.compliant_resources <= i,
            group.noncompliant_resources <= i,
        decreases resources@.len() - i,
    {
        let rc = evaluate_rules(&resources[i], rules);
        proof {
            lemma_met_unmet_len(resources@[i as int], rule_models(rules@));
            assert((i + 1) * rules@.len() <= resources@.len() * rules@.len()) by (nonlinear_arith)
                requires i + 1 <= resources@.len();
            assert((i + 1) * rules@.len() == i * rules@.len() + rules@.len()) by (nonlinear_arith);
        }
        let ghost before = out@;
        group = accumulate_group_compliance(group, &rc);
        out.push(rc);
        proof {
            assert(out@.drop_last() =~= before);
        }
        i = i + 1;
    }
    (out, group)
}

/// The tally of a sequence of evaluations, folded from the left from all-zero
/// counts.
pub open spec fn group_tally(rcs: Seq<ResourceCompliance>) -> ResourceGroupCompliance
    decreases rcs.len(),
{
    if rcs.len() == 0 {
        ResourceGroupCompliance {
            resource_count: 0,
            compliant_resources: 0,
            noncompliant_resources: 0,
            evaluated_rules: 0,
            compliant_rule_evaluations: 0,
            noncompliant_rule_evaluations: 0,
        }
    } else {
        let g = group_tally(rcs.drop_last());
        let c = rcs.last().compliant_rules@.len();
        let n = rcs.last().noncompliant_rules@.len();
        ResourceGroupCompliance {
            resource_count: (g.resource_count + 1) as usize,
            compliant_resources: (g.compliant_resources + (if n == 0 { 1int } else { 0int })) as usize,
            noncompliant_resources: (g.noncompliant_resources + (if n == 0 { 0int } else { 1int })) as usize,
            evaluated_rules: (g.evaluated_rules + c + n) as usize,
            compliant_rule_evaluations: (g.compliant_rule_evaluations + c) as usize,
            noncompliant_rule_evaluations: (g.noncompliant_rule_evaluations + n) as usize,
        }
    }
}

/// Each applicable rule is either met or failed, so the two lists together
/// are no longer than the rules.
pub proof fn lemma_met_unmet_len(res: Resource, rs: Seq<RuleModel>)
    ensures
        met_rules(res, rs).len() + unmet_rules(res, rs).len() <= rs.len(),
    decreases rs.len(),
{
    if rs.len() > 0 {
        lemma_met_unmet_len(res, rs.drop_last());
    }
}

/// A rule whose property is missing, or is not a string (a number, a boolean,
/// null, a sequence or a mapping), is never met, whatever its condition; where
/// it applies, the resource fails it.
pub proof fn lemma_non_string_never_met(res: Resource, r: RuleModel)
    requires
        res.property_text(r.property) is None,
    ensures
        !rule_met(res, r),
        rule_applies(res, r) ==> unmet_rules(res, seq![r]) == seq![r],
        met_rules(res, seq![r]) == Seq::<RuleModel>::empty(),
{
    let one = seq![r];
    assert(one.drop_last() =~= Seq::<RuleModel>::empty());
    assert(one.last() == r);
    assert(met_rules(res, one.drop_last()) == Seq::<RuleModel>::empty());
    assert(unmet_rules(res, one.drop_last()) == Seq::<RuleModel>::empty());
    if rule_applies(res, r) {
        assert(unmet_rules(res, one) =~= one);
    }
    assert(met_rules(res, one) =~= Seq::<RuleModel>::empty());
}

/// Against no rules, a resource meets and fails nothing, and its tally adds
/// no rule evaluation.
pub proof fn lemma_no_rules_no_evaluations(res: Resource, g: ResourceGroupCompliance, rc: ResourceCompliance, g2: ResourceGroupCompliance)
    requires
        rule_models(rc.compliant_rules@) == met_rules(res, Seq::<RuleModel>::empty()),
        rule_models(rc.noncompliant_rules@) == unmet_rules(res, Seq::<RuleModel>::empty()),
        tallied(g, rc, g2),
    ensures
        rc.compliant_rules@.len() == 0,
        rc.noncompliant_rules@.len() == 0,
        g2.evaluated_rules == g.evaluated_rules,
        g2.compliant_rule_evaluations == g.compliant_rule_evaluations,
        g2.noncompliant_rule_evaluations == g.noncompliant_rule_evaluations,
{
    assert(rule_models(rc.compliant_rules@).len() == 0);
    assert(rule_models(rc.noncompliant_rules@).len() == 0);
}

/// Each applicable rule lands in exactly one of the two lists, and a rule that
/// does not apply in neither: the lists partition the applicable rules.
pub proof fn lemma_applicable_rules_partitioned(res: Resource, rs: Seq<RuleModel>)
    ensures
        met_rules(res, rs).len() + unmet_rules(res, rs).len() == applicable_count(res, rs),
    decreases rs.len(),
{
    if rs.len() > 0 {
        lemma_applicable_rules_partitioned(res, rs.drop_last());
    }
}

/// How many of the rules apply to the resource.
pub open spec fn applicable_count(res: Resource, rs: Seq<RuleModel>) -> nat
    decreases rs.len(),
{
    if rs.len() == 0 {
        0
    } else {
        applicable_count(res, rs.drop_last()) + (if rule_applies(res, rs.last()) { 1nat } else { 0nat })
    }
}

} // verus!
