//! Resolution of the configured layer rules against one surface.
//!
//! Rules are applied in configuration order: a rule applies when any of its
//! match clauses matches the surface (or it has none) and no exclude clause
//! matches; later applicable rules override the fields they set.

use vstd::prelude::*;

use crate::config::{BlockOutFrom, CornerRadius, LayerRule, Permille, RuleMatch, ShadowRule};
use crate::surface::LayerAttributes;

verus! {

/// The style that the configured rules resolve to for one surface.
#[derive(Clone, Copy, Debug, PartialEq, Eq, Structural)]
pub struct ResolvedLayerRules {
    /// Opacity override in thousandths.
    pub opacity: Option<Permille>,
    /// Capture targets the surface must be blocked out from.
    pub block_out_from: Option<BlockOutFrom>,
    /// Corner radii of the surface geometry.
    pub geometry_corner_radius: Option<CornerRadius>,
    /// Whether the surface is placed inside the backdrop.
    pub place_within_backdrop: bool,
    /// Whether the surface bobs up and down while mapped.
    pub baba_is_float: bool,
    /// Shadow overrides accumulated from the rules.
    pub shadow: ShadowRule,
}

/// Whether one match clause matches the surface.
pub open spec fn spec_clause_matches(
    m: RuleMatch,
    attrs: LayerAttributes,
    is_at_startup: bool,
) -> bool {
    &&& (m.namespace matches Some(ns) ==> ns@ == attrs.namespace@)
    &&& (m.at_startup matches Some(b) ==> b == is_at_startup)
}

/// Whether any clause of the sequence matches the surface.
pub open spec fn spec_any_clause_matches(
    ms: Seq<RuleMatch>,
    attrs: LayerAttributes,
    is_at_startup: bool,
) -> bool {
    exists|i: int| 0 <= i < ms.len() && spec_clause_matches(ms[i], attrs, is_at_startup)
}

/// Whether the rule applies to the surface: some match clause matches (or
/// there are none) and no exclude clause matches.
pub open spec fn spec_rule_applies(
    rule: LayerRule,
    attrs: LayerAttributes,
    is_at_startup: bool,
) -> bool {
    &&& (rule.matches.len() == 0 || spec_any_clause_matches(rule.matches@, attrs, is_at_startup))
    &&& !spec_any_clause_matches(rule.excludes@, attrs, is_at_startup)
}

/// The style after laying one rule over an already-resolved style.
pub open spec fn spec_apply_rule(base: ResolvedLayerRules, rule: LayerRule) -> ResolvedLayerRules {
    ResolvedLayerRules {
        opacity: if rule.opacity is Some { rule.opacity } else { base.opacity },
        block_out_from: if rule.block_out_from is Some {
            rule.block_out_from
        } else {
            base.block_out_from
        },
        geometry_corner_radius: if rule.geometry_corner_radius is Some {
            rule.geometry_corner_radius
        } else {
            base.geometry_corner_radius
        },
        place_within_backdrop: base.place_within_backdrop || rule.place_within_backdrop,
        baba_is_float: base.baba_is_float || rule.baba_is_float,
        shadow: base.shadow.spec_overridden_by(rule.shadow),
    }
}

/// The style no rule has touched.
pub open spec fn spec_default_rules() -> ResolvedLayerRules {
    ResolvedLayerRules {
        opacity: None,
        block_out_from: None,
        geometry_corner_radius: None,
        place_within_backdrop: false,
        baba_is_float: false,
        shadow: ShadowRule { on: None, softness: None, spread: None, offset: None, color: None },
    }
}

/// The style the rule sequence resolves to for the surface: the applicable
/// rules folded over the untouched style, in order.
pub open spec fn spec_compute_rules(
    rules: Seq<LayerRule>,
    attrs: LayerAttributes,
    is_at_startup: bool,
) -> ResolvedLayerRules
    decreases rules.len(),
{
    if rules.len() == 0 {
        spec_default_rules()
    } else {
        let prefix = spec_compute_rules(rules.drop_last(), attrs, is_at_startup);
        if spec_rule_applies(rules.last(), attrs, is_at_startup) {
            spec_apply_rule(prefix, rules.last())
        } else {
            prefix
        }
    }
}

/// Whether any clause of `ms` matches the surface.
fn any_clause_matches(ms: &Vec<RuleMatch>, attrs: &LayerAttributes, is_at_startup: bool) -> (r:
    bool)
    ensures
        r == spec_any_clause_matches(ms@, *attrs, is_at_startup),
{
    let mut i: usize = 0;
    while i < ms.len()
        invariant
            0 <= i <= ms.len(),
            forall|j: int|
                0 <= j < i ==> !spec_clause_matches(ms@[j], *attrs, is_at_startup),
        decreases ms.len() - i,
    {
        let m = &ms[i];
        let ns_ok = match &m.namespace {
            Some(ns) => *ns == attrs.namespace,
            None => true,
        };
        let startup_ok = match m.at_startup {
            Some(b) => b == is_at_startup,
            None => true,
        };
        if ns_ok && startup_ok {
            assert(spec_clause_matches(ms@[i as int], *attrs, is_at_startup));
            return true;
        }
        i += 1;
    }
    false
}

/// Whether the rule applies to the surface.
fn rule_applies(rule: &LayerRule, attrs: &LayerAttributes, is_at_startup: bool) -> (r: bool)
    ensures
        r == spec_rule_applies(*rule, *attrs, is_at_startup),
{
    let matched = rule.matches.len() == 0 || any_clause_matches(
        &rule.matches,
        attrs,
        is_at_startup,
    );
    matched && !any_clause_matches(&rule.excludes, attrs, is_at_startup)
}

impl ResolvedLayerRules {
    /// Resolves the configured rules against one surface: applicable rules
    /// are laid over the untouched style in configuration order.
    pub fn compute(rules: &Vec<LayerRule>, attrs: &LayerAttributes, is_at_startup: bool) -> (r:
        ResolvedLayerRules)
        ensures
            r == spec_compute_rules(rules@, *attrs, is_at_startup),
    {
        let mut resolved = ResolvedLayerRules {
            opacity: None,
            block_out_from: None,
            geometry_corner_radius: None,
            place_within_backdrop: false,
            baba_is_float: false,
            shadow: ShadowRule::empty(),
        };
        let mut i: usize = 0;
        while i < rules.len()
            invariant
                0 <= i <= rules.len(),
                resolved == spec_compute_rules(rules@.subrange(0, i as int), *attrs, is_at_startup),
            decreases rules.len() - i,
        {
            let ghost prefix = rules@.subrange(0, i as int);
            if rule_applies(&rules[i], attrs, is_at_startup) {
                resolved = ResolvedLayerRules {
                    opacity: if rules[i].opacity.is_some() {
                        rules[i].opacity
                    } else {
                        resolved.opacity
                    },
                    block_out_from: if rules[i].block_out_from.is_some() {
                        rules[i].block_out_from
                    } else {
                        resolved.block_out_from
                    },
                    geometry_corner_radius: if rules[i].geometry_corner_radius.is_some() {
                        rules[i].geometry_corner_radius
                    } else {
                        resolved.geometry_corner_radius
                    },
                    place_within_backdrop: resolved.place_within_backdrop
                        || rules[i].place_within_backdrop,
                    baba_is_float: resolved.baba_is_float || rules[i].baba_is_float,
                    shadow: resolved.shadow.overridden_by(&rules[i].shadow),
                };
            }
            proof {
                let next = rules@.subrange(0, i + 1);
                assert(next.drop_last() =~= prefix);
                assert(next.last() == rules@[i as int]);
            }
            i += 1;
        }
        proof {
            assert(rules@.subrange(0, rules@.len() as int) =~= rules@);
        }
        resolved
    }
}

} // verus!
