//! Flag detail: the configuration of one flag in one environment.
//!
//! Edits go to a local draft, which is sent as a whole when it is saved.

use vstd::prelude::*;

use crate::domain;
use crate::domain::{
    condition_models, copy_rules, copy_variants, is_nan, is_text, rule_agrees,
    rule_models, rules_agree, same_distribution, same_rules, AttributeModel, Condition,
    Distribution, DistributionModel, Rule, RuleModel, Variant, WeightedVariant,
};
use crate::ids::Uuid;
use crate::text::{maybe, same_text};
use crate::web::api;
use crate::web::api::models::{Environment, Flag, FlagConfig};
use crate::web::api::{
    flag_path, loaded, project_path, resource_path, ApiError, ArchiveBody, Body, Call, ConfigBody,
    Load, Method,
};
use crate::web::pages::conditions::{
    add_condition, conditions_edited, described, description_from, edit_condition,
    remove_condition, ConditionEdit,
};
use crate::web::pages::rollout::{
    capped, even_split, set_share, set_split, splits_evenly,
};
use crate::web::pages::{choose_environment, default_environment};
use crate::web::toast::{Level, Notice};

verus! {

// ------------------------------------------------------------------------ draft

/// A configuration being edited, and the version it was read at.
#[derive(Debug)]
pub struct Draft {
    pub enabled: bool,
    pub off_variant: String,
    pub fallthrough: Distribution,
    pub rules: Vec<Rule>,
    pub version: i64,
}

pub struct DraftModel {
    pub enabled: bool,
    pub off_variant: Seq<char>,
    pub fallthrough: DistributionModel,
    pub rules: Seq<RuleModel>,
    pub version: i64,
}

impl View for Draft {
    type V = DraftModel;

    open spec fn view(&self) -> DraftModel {
        DraftModel {
            enabled: self.enabled,
            off_variant: self.off_variant@,
            fallthrough: self.fallthrough@,
            rules: rule_models(self.rules@),
            version: self.version,
        }
    }
}

impl Clone for Draft {
    fn clone(&self) -> (copy: Draft)
        ensures
            copy@ == self@,
    {
        Draft {
            enabled: self.enabled,
            off_variant: self.off_variant.clone(),
            fallthrough: self.fallthrough.clone(),
            rules: copy_rules(&self.rules),
            version: self.version,
        }
    }
}

/// Equality of drafts.
pub open spec fn draft_agrees(a: DraftModel, b: DraftModel) -> bool {
    &&& a.enabled == b.enabled
    &&& a.off_variant == b.off_variant
    &&& a.fallthrough == b.fallthrough
    &&& rules_agree(a.rules, b.rules)
    &&& a.version == b.version
}

/// What is edited of a configuration.
pub open spec fn draft_of(config: FlagConfig) -> DraftModel {
    DraftModel {
        enabled: config.enabled,
        off_variant: config.off_variant@,
        fallthrough: config.fallthrough@,
        rules: rule_models(config.rules@),
        version: config.version,
    }
}

/// A list of rules after a change to one of them; a position that is not there
/// changes nothing.
pub open spec fn rule_changed(rules: Seq<RuleModel>, index: int, rule: RuleModel) -> Seq<RuleModel> {
    if 0 <= index < rules.len() {
        rules.update(index, rule)
    } else {
        rules
    }
}

/// The rule a new one starts out as.
pub open spec fn new_rule(id: Uuid, variant: Seq<char>) -> RuleModel {
    RuleModel {
        id,
        description: None,
        conditions: seq![is_text("plan"@, "pro"@)],
        distribution: DistributionModel::Fixed { variant },
    }
}

impl Draft {
    /// What is edited of a configuration.
    pub fn from(config: FlagConfig) -> (draft: Draft)
        ensures
            draft@ == draft_of(config),
            draft.enabled == config.enabled,
            draft.off_variant@ == config.off_variant@,
            draft.fallthrough == config.fallthrough,
            draft.rules@ == config.rules@,
            draft.version == config.version,
    {
        Draft {
            enabled: config.enabled,
            off_variant: config.off_variant,
            fallthrough: config.fallthrough,
            rules: config.rules,
            version: config.version,
        }
    }

    /// Equality of drafts.
    pub fn same(&self, other: &Draft) -> (same: bool)
        ensures
            same == draft_agrees(self@, other@),
            same ==> {
                &&& self.enabled == other.enabled
                &&& self.off_variant@ == other.off_variant@
                &&& self.fallthrough@ == other.fallthrough@
                &&& self.rules@.len() == other.rules@.len()
                &&& self.version == other.version
            },
    {
        self.enabled == other.enabled && same_text(
            self.off_variant.as_str(),
            other.off_variant.as_str(),
        ) && same_distribution(&self.fallthrough, &other.fallthrough) && same_rules(
            &self.rules,
            &other.rules,
        ) && self.version == other.version
    }

    /// Turns the flag on or off.
    pub fn set_enabled(&mut self, enabled: bool)
        ensures
            final(self)@ == (DraftModel { enabled, ..old(self)@ }),
    {
        self.enabled = enabled;
    }

    /// Adds a rule that serves the first variant. Without variants there is
    /// nothing to serve, and no rule.
    pub fn add_rule(&mut self, id: Uuid, variants: &Vec<Variant>)
        ensures
            final(self)@ == (if variants@.len() > 0 {
                DraftModel {
                    rules: old(self)@.rules.push(new_rule(id, variants@[0].key@)),
                    ..old(self)@
                }
            } else {
                old(self)@
            }),
    {
        if variants.len() == 0 {
            return;
        }
        let ghost before = self@.rules;
        let mut conditions: Vec<Condition> = Vec::new();
        conditions.push(Condition::is_text("plan", "pro"));
        assert(condition_models(conditions@) =~= seq![is_text("plan"@, "pro"@)]);
        self.rules.push(
            Rule {
                id,
                description: None,
                conditions,
                distribution: Distribution::Fixed { variant: variants[0].key.clone() },
            },
        );
        assert(self@.rules =~= before.push(new_rule(id, variants@[0].key@)));
    }

    /// Removes a rule.
    pub fn remove_rule(&mut self, index: usize)
        requires
            index < old(self).rules@.len(),
        ensures
            final(self)@ == (DraftModel {
                rules: old(self)@.rules.remove(index as int),
                ..old(self)@
            }),
    {
        let ghost before = self@.rules;
        self.rules.remove(index);
        assert(self@.rules =~= before.remove(index as int));
    }

    /// Describes a rule.
    pub fn describe_rule(&mut self, index: usize, text: &str)
        ensures
            final(self)@ == (DraftModel {
                rules: rule_changed(
                    old(self)@.rules,
                    index as int,
                    RuleModel {
                        description: described(text@),
                        ..old(self)@.rules[index as int]
                    },
                ),
                ..old(self)@
            }),
    {
        if index < self.rules.len() {
            let ghost before = self@.rules;
            let rule = &mut self.rules[index];
            rule.description = description_from(text);
            assert(self@.rules =~= before.update(
                index as int,
                RuleModel { description: described(text@), ..before[index as int] },
            ));
        }
    }

    /// Makes a rule serve one variant.
    pub fn serve(&mut self, index: usize, variant: String)
        ensures
            final(self)@ == (DraftModel {
                rules: rule_changed(
                    old(self)@.rules,
                    index as int,
                    RuleModel {
                        distribution: DistributionModel::Fixed { variant: variant@ },
                        ..old(self)@.rules[index as int]
                    },
                ),
                ..old(self)@
            }),
    {
        if index < self.rules.len() {
            let ghost before = self@.rules;
            let ghost served = variant@;
            let rule = &mut self.rules[index];
            rule.distribution = Distribution::Fixed { variant };
            assert(self@.rules =~= before.update(
                index as int,
                RuleModel {
                    distribution: DistributionModel::Fixed { variant: served },
                    ..before[index as int]
                },
            ));
        }
    }

    /// Adds a condition to a rule.
    pub fn add_condition(&mut self, index: usize)
        ensures
            final(self)@ == (DraftModel {
                rules: rule_changed(
                    old(self)@.rules,
                    index as int,
                    RuleModel {
                        conditions: old(self)@.rules[index as int].conditions.push(
                            is_text("country"@, "ES"@),
                        ),
                        ..old(self)@.rules[index as int]
                    },
                ),
                ..old(self)@
            }),
    {
        if index < self.rules.len() {
            let ghost before = self@.rules;
            let rule = &mut self.rules[index];
            add_condition(&mut rule.conditions);
            assert(self@.rules =~= before.update(
                index as int,
                RuleModel {
                    conditions: before[index as int].conditions.push(is_text("country"@, "ES"@)),
                    ..before[index as int]
                },
            ));
        }
    }

    /// Changes a condition of a rule.
    pub fn edit_condition(&mut self, index: usize, position: usize, edit: ConditionEdit)
        ensures
            final(self)@ == (DraftModel {
                rules: rule_changed(
                    old(self)@.rules,
                    index as int,
                    RuleModel {
                        conditions: conditions_edited(
                            old(self)@.rules[index as int].conditions,
                            position as int,
                            edit,
                        ),
                        ..old(self)@.rules[index as int]
                    },
                ),
                ..old(self)@
            }),
    {
        if index < self.rules.len() {
            let ghost before = self@.rules;
            let rule = &mut self.rules[index];
            edit_condition(&mut rule.conditions, position, edit);
            assert(self@.rules =~= before.update(
                index as int,
                RuleModel {
                    conditions: conditions_edited(
                        before[index as int].conditions,
                        position as int,
                        edit,
                    ),
                    ..before[index as int]
                },
            ));
        }
    }

    /// Removes a condition of a rule.
    pub fn remove_condition(&mut self, index: usize, position: usize)
        requires
            index < old(self).rules@.len() ==> position < old(
                self,
            ).rules@[index as int].conditions@.len(),
        ensures
            final(self)@ == (DraftModel {
                rules: rule_changed(
                    old(self)@.rules,
                    index as int,
                    RuleModel {
                        conditions: old(self)@.rules[index as int].conditions.remove(
                            position as int,
                        ),
                        ..old(self)@.rules[index as int]
                    },
                ),
                ..old(self)@
            }),
    {
        if index < self.rules.len() {
            let ghost before = self@.rules;
            let rule = &mut self.rules[index];
            remove_condition(&mut rule.conditions, position);
            assert(self@.rules =~= before.update(
                index as int,
                RuleModel {
                    conditions: before[index as int].conditions.remove(position as int),
                    ..before[index as int]
                },
            ));
        }
    }

    /// Whether those no rule matches get a percentage rollout.
    pub fn is_rollout(&self) -> (yes: bool)
        ensures
            yes == (self.fallthrough is Rollout),
    {
        match &self.fallthrough {
            Distribution::Rollout { .. } => true,
            Distribution::Fixed { .. } => false,
        }
    }

    /// Serves those no rule matches a percentage rollout, evenly to begin with,
    /// or one variant, the first to begin with.
    pub fn set_mode(&mut self, rollout: bool, variants: &Vec<Variant>)
        requires
            variants.len() <= u32::MAX,
        ensures
            final(self)@ == (DraftModel { fallthrough: final(self)@.fallthrough, ..old(self)@ }),
            match final(self).fallthrough {
                Distribution::Rollout { weights, bucket_by } => {
                    &&& rollout
                    &&& splits_evenly(weights@, variants@)
                    &&& bucket_by is None
                },
                Distribution::Fixed { variant } => {
                    &&& !rollout
                    &&& variant@ == (if variants@.len() > 0 {
                        variants@[0].key@
                    } else {
                        Seq::empty()
                    })
                },
            },
    {
        if rollout {
            self.fallthrough =
            Distribution::Rollout { weights: even_split(variants), bucket_by: None };
        } else {
            let variant: String = if variants.len() > 0 {
                variants[0].key.clone()
            } else {
                String::new()
            };
            self.fallthrough = Distribution::Fixed { variant };
        }
    }

    /// Serves those no rule matches one variant.
    pub fn set_fallthrough(&mut self, variant: String)
        ensures
            final(self)@ == (DraftModel {
                fallthrough: DistributionModel::Fixed { variant: variant@ },
                ..old(self)@
            }),
    {
        self.fallthrough = Distribution::Fixed { variant };
    }

    /// Moves the slider of a rollout between two variants. Everything else stays
    /// as it is.
    pub fn set_split(&mut self, first: u32)
        ensures
            final(self)@ == (DraftModel { fallthrough: final(self)@.fallthrough, ..old(self)@ }),
            match old(self).fallthrough {
                Distribution::Rollout { weights, bucket_by } => {
                    &&& final(self).fallthrough matches Distribution::Rollout {
                        weights: moved,
                        bucket_by: kept,
                    }
                    &&& kept == bucket_by
                    &&& weights@.len() != 2 ==> moved@ == weights@
                    &&& weights@.len() == 2 ==> moved@ == seq![
                        WeightedVariant { variant: weights@[0].variant, weight: capped(first) },
                        WeightedVariant {
                            variant: weights@[1].variant,
                            weight: (domain::TOTAL_WEIGHT - capped(first)) as u32,
                        },
                    ]
                },
                Distribution::Fixed { .. } => final(self).fallthrough == old(self).fallthrough,
            },
    {
        match &mut self.fallthrough {
            Distribution::Rollout { weights, .. } => {
                set_split(weights, first);
            },
            Distribution::Fixed { .. } => {},
        }
    }

    /// Sets the share of one variant of a rollout. Everything else stays as it
    /// is.
    pub fn set_share(&mut self, index: usize, weight: u32)
        ensures
            final(self)@ == (DraftModel { fallthrough: final(self)@.fallthrough, ..old(self)@ }),
            match old(self).fallthrough {
                Distribution::Rollout { weights, bucket_by } => {
                    &&& final(self).fallthrough matches Distribution::Rollout {
                        weights: moved,
                        bucket_by: kept,
                    }
                    &&& kept == bucket_by
                    &&& index >= weights@.len() ==> moved@ == weights@
                    &&& index < weights@.len() ==> moved@ == weights@.update(
                        index as int,
                        WeightedVariant {
                            variant: weights@[index as int].variant,
                            weight: capped(weight),
                        },
                    )
                },
                Distribution::Fixed { .. } => final(self).fallthrough == old(self).fallthrough,
            },
    {
        match &mut self.fallthrough {
            Distribution::Rollout { weights, .. } => {
                set_share(weights, index, weight);
            },
            Distribution::Fixed { .. } => {},
        }
    }
}

/// The variant a rule is shown to serve: the one it serves, or the first of its
/// rollout.
pub fn shown_variant(distribution: &Distribution) -> (variant: String)
    ensures
        variant@ == (match distribution {
            Distribution::Fixed { variant } => variant@,
            Distribution::Rollout { weights, .. } => if weights@.len() > 0 {
                weights@[0].variant@
            } else {
                Seq::empty()
            },
        }),
{
    match distribution {
        Distribution::Fixed { variant } => variant.clone(),
        Distribution::Rollout { weights, .. } => if weights.len() > 0 {
            weights[0].variant.clone()
        } else {
            String::new()
        },
    }
}

/// Whether a value equals itself. What is no number does not.
pub open spec fn is_proper(value: AttributeModel) -> bool {
    value matches AttributeModel::Number(number) ==> !is_nan(number)
}

/// Whether every value in the rules of a draft equals itself.
pub open spec fn has_proper_values(draft: DraftModel) -> bool {
    forall|r: int, c: int, v: int|
        0 <= r < draft.rules.len() && 0 <= c < draft.rules[r].conditions.len() && 0 <= v
            < draft.rules[r].conditions[c].values.len() ==> is_proper(
            #[trigger] draft.rules[r].conditions[c].values[v],
        )
}

/// A draft equals itself, unless one of its values does not: right after a load
/// or a save there is nothing to save.
pub proof fn fresh_draft_is_clean(draft: DraftModel)
    requires
        has_proper_values(draft),
    ensures
        draft_agrees(draft, draft),
{
    assert forall|r: int| 0 <= r < draft.rules.len() implies rule_agrees(
        #[trigger] draft.rules[r],
        draft.rules[r],
    ) by {
        let conditions = draft.rules[r].conditions;
        assert forall|c: int| 0 <= c < conditions.len() implies domain::condition_agrees(
            #[trigger] conditions[c],
            conditions[c],
        ) by {
            let values = conditions[c].values;
            assert forall|v: int| 0 <= v < values.len() implies domain::value_agrees(
                #[trigger] values[v],
                values[v],
            ) by {
                assert(is_proper(draft.rules[r].conditions[c].values[v]));
            }
        }
    }
}

// ------------------------------------------------------------------------- page

/// The page of a flag.
#[derive(Debug)]
pub struct FlagDetail {
    pub environments: Load<Vec<Environment>>,
    pub selected: Option<String>,
    pub variants: Vec<Variant>,
    /// The configuration as the server has it.
    pub loaded: Load<Draft>,
    /// The configuration as it is being edited.
    pub draft: Option<Draft>,
    pub saving: bool,
}

/// What the page shows.
#[derive(Debug, Clone, Copy, PartialEq, Eq, Structural)]
pub enum Screen {
    Waiting,
    Failed,
    Editing,
}

/// Whether a request rewrites a flag's configuration with a draft, guarded by
/// the version the draft was read at.
pub open spec fn writes_draft(
    call: Call<'_>,
    token: Seq<char>,
    project: Seq<char>,
    environment: Seq<char>,
    flag: Seq<char>,
    draft: DraftModel,
) -> bool {
    &&& call.is(Method::Put, resource_path(project, environment, "/flags"@, flag), Some(token))
    &&& call.body matches Body::Config(body)
    &&& body.enabled == draft.enabled
    &&& body.off_variant@ == draft.off_variant
    &&& body.fallthrough@ == draft.fallthrough
    &&& rule_models(body.rules@) == draft.rules
    &&& body.expected_version == draft.version
}

/// Whether a flag is what the engine would evaluate for a draft.
pub open spec fn is_candidate(
    flag: domain::Flag,
    key: Seq<char>,
    variants: Seq<Variant>,
    enabled: bool,
    draft: DraftModel,
) -> bool {
    &&& flag.key@ == key
    &&& flag.variants@ == variants
    &&& flag.enabled == enabled
    &&& flag.off_variant@ == draft.off_variant
    &&& flag.fallthrough@ == draft.fallthrough
    &&& rule_models(flag.rules@) == draft.rules
    &&& flag.version == draft.version
}

fn candidate(key: &str, variants: &Vec<Variant>, enabled: bool, draft: &Draft) -> (flag:
    domain::Flag)
    ensures
        is_candidate(flag, key@, variants@, enabled, draft@),
{
    domain::Flag {
        key: key.to_owned(),
        variants: copy_variants(variants),
        enabled,
        off_variant: draft.off_variant.clone(),
        fallthrough: draft.fallthrough.clone(),
        rules: copy_rules(&draft.rules),
        version: draft.version,
    }
}

impl FlagDetail {
    pub fn new() -> (page: FlagDetail)
        ensures
            page.environments is Loading,
            page.selected is None,
            page.variants@.len() == 0,
            page.loaded is Loading,
            page.draft is None,
            !page.saving,
    {
        FlagDetail {
            environments: Load::Loading,
            selected: None,
            variants: Vec::new(),
            loaded: Load::Loading,
            draft: None,
            saving: false,
        }
    }

    /// What the server said of the environments. A page starts out with the
    /// production one.
    pub fn environments_loaded(&mut self, answer: Result<Vec<Environment>, ApiError>)
        ensures
            *final(self) == (FlagDetail {
                environments: loaded(answer),
                selected: final(self).selected,
                ..*old(self)
            }),
            match answer {
                Ok(list) => maybe(final(self).selected) == default_environment(list@),
                Err(_) => final(self).selected == old(self).selected,
            },
    {
        if let Ok(list) = &answer {
            self.selected = choose_environment(list);
        }
        self.environments = Load::from(answer);
    }

    /// Goes to another environment.
    pub fn select(&mut self, key: String)
        ensures
            *final(self) == (FlagDetail { selected: Some(key), ..*old(self) }),
    {
        self.selected = Some(key);
    }

    /// Whether an environment is the one that is shown.
    pub fn is_selected(&self, key: &str) -> (yes: bool)
        ensures
            yes == (maybe(self.selected) == Some(key@)),
    {
        match &self.selected {
            Some(selected) => same_text(selected.as_str(), key),
            None => false,
        }
    }

    /// Asks for the flag's definition and for its configuration in the selected
    /// environment.
    pub fn load_config<'a>(&mut self, token: Option<&'a str>, project: &str, flag: &str) -> (calls:
        Option<(Call<'a>, Call<'a>)>)
        ensures
            match (token, old(self).selected) {
                (Some(token), Some(environment)) => {
                    &&& *final(self) == (FlagDetail { loaded: Load::Loading, ..*old(self) })
                    &&& calls matches Some((definition, config))
                    &&& definition.is(Method::Get, flag_path(project@, flag@), Some(token@))
                    &&& definition.body == Body::Nothing
                    &&& config.is(
                        Method::Get,
                        resource_path(project@, environment@, "/flags"@, flag@),
                        Some(token@),
                    )
                    &&& config.body == Body::Nothing
                },
                _ => *final(self) == *old(self) && calls is None,
            },
    {
        match (token, &self.selected) {
            (Some(token), Some(environment)) => {
                let definition = api::get_flag(token, project, flag);
                let config = api::get_config(token, project, environment.as_str(), flag);
                self.loaded = Load::Loading;
                Some((definition, config))
            },
            _ => None,
        }
    }

    /// What the server said of both. Where both failed, the definition's failure
    /// is the one that is shown.
    pub fn config_loaded(
        &mut self,
        definition: Result<Flag, ApiError>,
        config: Result<FlagConfig, ApiError>,
    )
        ensures
            final(self).environments == old(self).environments,
            final(self).selected == old(self).selected,
            final(self).saving == old(self).saving,
            match (definition, config) {
                (Ok(definition), Ok(config)) => {
                    &&& final(self).variants == definition.variants
                    &&& final(self).draft matches Some(draft) && draft@ == draft_of(config)
                    &&& final(self).loaded matches Load::Ready(kept) && kept@ == draft_of(config)
                },
                (Err(error), _) => {
                    &&& final(self).variants == old(self).variants
                    &&& final(self).draft == old(self).draft
                    &&& final(self).loaded == Load::<Draft>::Failed(error)
                },
                (_, Err(error)) => {
                    &&& final(self).variants == old(self).variants
                    &&& final(self).draft == old(self).draft
                    &&& final(self).loaded == Load::<Draft>::Failed(error)
                },
            },
    {
        match (definition, config) {
            (Ok(definition), Ok(config)) => {
                self.variants = definition.variants;
                let value = Draft::from(config);
                self.draft = Some(value.clone());
                self.loaded = Load::Ready(value);
            },
            (Err(error), _) => {
                self.loaded = Load::Failed(error);
            },
            (_, Err(error)) => {
                self.loaded = Load::Failed(error);
            },
        }
    }

    /// What to validate before saving: the draft as if it were on, since what is
    /// off today is turned on tomorrow. Nothing until the variants are known.
    pub fn to_validate(&self, flag: &str) -> (candidate: Option<domain::Flag>)
        ensures
            match (self.draft, self.variants@.len() > 0) {
                (Some(draft), true) => candidate matches Some(built) && is_candidate(
                    built,
                    flag@,
                    self.variants@,
                    true,
                    draft@,
                ),
                _ => candidate is None,
            },
    {
        match &self.draft {
            Some(draft) => if self.variants.len() > 0 {
                Some(candidate(flag, &self.variants, true, draft))
            } else {
                None
            },
            None => None,
        }
    }

    /// What to evaluate for the preview: the draft as it is.
    pub fn to_preview(&self, flag: &str) -> (candidate: Option<domain::Flag>)
        ensures
            match self.draft {
                Some(draft) => candidate matches Some(built) && is_candidate(
                    built,
                    flag@,
                    self.variants@,
                    draft.enabled,
                    draft@,
                ),
                None => candidate is None,
            },
    {
        match &self.draft {
            Some(draft) => Some(candidate(flag, &self.variants, draft.enabled, draft)),
            None => None,
        }
    }

    /// Whether there is anything to save.
    pub open spec fn has_changes(self) -> bool {
        match (self.draft, self.loaded) {
            (Some(current), Load::Ready(original)) => !draft_agrees(current@, original@),
            _ => false,
        }
    }

    /// Whether there is anything to save.
    pub fn is_dirty(&self) -> (yes: bool)
        ensures
            yes == self.has_changes(),
            match (self.draft, self.loaded) {
                (Some(current), Load::Ready(original)) => !yes ==> {
                    &&& current.enabled == original.enabled
                    &&& current.off_variant@ == original.off_variant@
                    &&& current.fallthrough@ == original.fallthrough@
                    &&& current.rules@.len() == original.rules@.len()
                    &&& current.version == original.version
                },
                _ => !yes,
            },
    {
        match (&self.draft, &self.loaded) {
            (Some(current), Load::Ready(original)) => !current.same(original),
            _ => false,
        }
    }

    /// Whether saving is offered.
    pub fn offers_save(&self, can_write: bool) -> (yes: bool)
        ensures
            yes == (can_write && self.has_changes()),
    {
        can_write && self.is_dirty()
    }

    /// Whether saving is possible right now, given the number of problems with
    /// the draft.
    pub fn save_disabled(&self, issues: usize) -> (yes: bool)
        ensures
            yes == (self.saving || issues > 0),
    {
        self.saving || issues > 0
    }

    /// Saves the draft, unless it is being saved already.
    pub fn save<'a>(&mut self, token: Option<&'a str>, project: &str, flag: &str) -> (call: Option<
        Call<'a>,
    >)
        ensures
            match (token, old(self).selected, old(self).draft) {
                (Some(token), Some(environment), Some(draft)) => if old(self).saving {
                    *final(self) == *old(self) && call is None
                } else {
                    &&& *final(self) == (FlagDetail { saving: true, ..*old(self) })
                    &&& call matches Some(call) && writes_draft(
                        call,
                        token@,
                        project@,
                        environment@,
                        flag@,
                        draft@,
                    )
                    &&& call->0.body matches Body::Config(body)
                    &&& body.enabled == draft.enabled
                    &&& body.off_variant@ == draft.off_variant@
                    &&& body.fallthrough@ == draft.fallthrough@
                    &&& body.rules@.len() == draft.rules@.len()
                    &&& forall|i: int|
                        0 <= i < draft.rules@.len() ==> (#[trigger] body.rules@[i])@
                            == draft.rules@[i]@
                    &&& body.expected_version == draft.version
                },
                _ => *final(self) == *old(self) && call is None,
            },
    {
        let call = match (token, &self.selected, &self.draft) {
            (Some(token), Some(environment), Some(draft)) => if self.saving {
                None
            } else {
                Some(
                    api::put_config(
                        token,
                        project,
                        environment.as_str(),
                        flag,
                        ConfigBody {
                            enabled: draft.enabled,
                            off_variant: draft.off_variant.clone(),
                            fallthrough: draft.fallthrough.clone(),
                            rules: copy_rules(&draft.rules),
                            expected_version: draft.version,
                        },
                    ),
                )
            },
            _ => None,
        };
        proof {
            if call is Some {
                what_is_sent_is_the_draft(
                    call->0,
                    token->0@,
                    project@,
                    self.selected->0@,
                    flag@,
                    self.draft->0,
                );
            }
        }
        if call.is_some() {
            self.saving = true;
        }
        call
    }

    /// What the server said of a save, `flag` in `environment`. A lost race
    /// keeps the draft: whoever made it decides what to do about it.
    pub fn saved(&mut self, answer: Result<FlagConfig, ApiError>, flag: &str, environment: &str) -> (
    notice: Notice)
        ensures
            final(self).environments == old(self).environments,
            final(self).selected == old(self).selected,
            final(self).variants == old(self).variants,
            !final(self).saving,
            match answer {
                Ok(config) => {
                    &&& final(self).draft matches Some(draft) && draft@ == draft_of(config)
                    &&& final(self).loaded matches Load::Ready(kept) && kept@ == draft_of(config)
                    &&& notice.succeeds(
                        "Saved \u{2014} "@ + flag@ + " updated in "@ + environment@,
                    )
                },
                Err(error) => {
                    &&& final(self).draft == old(self).draft
                    &&& final(self).loaded == old(self).loaded
                    &&& if error.status == 409 {
                        notice.says(
                            Level::Error,
                            "Someone else saved first"@,
                            "Your changes were not applied. Reload to see theirs."@,
                        )
                    } else {
                        notice.fails("Could not save"@, error)
                    }
                },
            },
    {
        self.saving = false;
        match answer {
            Ok(config) => {
                let value = Draft::from(config);
                self.draft = Some(value.clone());
                self.loaded = Load::Ready(value);
                let mut title: String = "Saved \u{2014} ".to_owned();
                title.append(flag);
                title.append(" updated in ");
                title.append(environment);
                Notice::success(title)
            },
            Err(error) => if error.is_conflict() {
                Notice::message(
                    Level::Error,
                    "Someone else saved first",
                    "Your changes were not applied. Reload to see theirs.",
                )
            } else {
                Notice::error("Could not save", &error)
            },
        }
    }

    /// What the page shows. A failed load shows as one, whether or not there was
    /// a draft before it.
    pub fn screen(&self) -> (screen: Screen)
        ensures
            screen == (match (self.loaded, self.draft) {
                (Load::Loading, _) => Screen::Waiting,
                (Load::Failed(_), _) => Screen::Failed,
                (Load::Ready(_), None) => Screen::Waiting,
                (Load::Ready(_), Some(_)) => Screen::Editing,
            }),
    {
        match (&self.loaded, &self.draft) {
            (Load::Loading, _) => Screen::Waiting,
            (Load::Failed(_), _) => Screen::Failed,
            (Load::Ready(_), None) => Screen::Waiting,
            (Load::Ready(_), Some(_)) => Screen::Editing,
        }
    }

    /// The line under the title.
    pub fn lead(&self) -> (text: String)
        ensures
            text@ == "Configuration in "@ + (match self.selected {
                Some(environment) => environment@,
                None => Seq::empty(),
            }),
    {
        let mut text: String = "Configuration in ".to_owned();
        if let Some(environment) = &self.selected {
            text.append(environment.as_str());
        }
        assert(text@ =~= "Configuration in "@ + (match self.selected {
            Some(environment) => environment@,
            None => Seq::empty(),
        }));
        text
    }
}

/// What is said of a flag that is on or off, and what that means.
pub fn switch_words(enabled: bool) -> (words: (&'static str, &'static str))
    ensures
        enabled ==> words.0@ == "Flag is on"@ && words.1@
            == "Rules are evaluated in order, then the fallthrough below."@,
        !enabled ==> words.0@ == "Flag is off"@ && words.1@
            == "Everyone gets the off variant. Rules are not evaluated at all."@,
{
    if enabled {
        ("Flag is on", "Rules are evaluated in order, then the fallthrough below.")
    } else {
        ("Flag is off", "Everyone gets the off variant. Rules are not evaluated at all.")
    }
}

// ------------------------------------------------------------------ danger zone

/// Archiving and deletion. Archiving stops a flag being served and keeps its
/// history; deleting removes it from every environment and cannot be undone.
#[derive(Debug, Clone, Copy, PartialEq, Eq, Structural)]
pub struct DangerZone {
    pub busy: bool,
}

impl DangerZone {
    pub fn new() -> (zone: DangerZone)
        ensures
            !zone.busy,
    {
        DangerZone { busy: false }
    }

    /// Archives the flag.
    pub fn archive<'a>(&mut self, token: Option<&'a str>, project: &str, flag: &str) -> (call:
        Option<Call<'a>>)
        ensures
            match token {
                Some(token) => {
                    &&& final(self).busy
                    &&& call matches Some(call) && call.is(
                        Method::Patch,
                        flag_path(project@, flag@),
                        Some(token@),
                    ) && call.body == Body::Archive(ArchiveBody { archived: true })
                },
                None => *final(self) == *old(self) && call is None,
            },
    {
        match token {
            Some(token) => {
                self.busy = true;
                Some(api::archive_flag(token, project, flag, true))
            },
            None => None,
        }
    }

    /// What the server said of archiving.
    pub fn archived(&mut self, answer: Result<Flag, ApiError>, flag: &str) -> (notice: Notice)
        ensures
            !final(self).busy,
            match answer {
                Ok(_) => notice.succeeds(
                    flag@ + " archived \u{2014} SDKs no longer receive it"@,
                ),
                Err(error) => notice.fails("Could not archive the flag"@, error),
            },
    {
        self.busy = false;
        match answer {
            Ok(_) => {
                let mut title: String = flag.to_owned();
                title.append(" archived \u{2014} SDKs no longer receive it");
                Notice::success(title)
            },
            Err(error) => Notice::error("Could not archive the flag", &error),
        }
    }

    /// Deletes the flag.
    pub fn delete<'a>(&mut self, token: Option<&'a str>, project: &str, flag: &str) -> (call:
        Option<Call<'a>>)
        ensures
            match token {
                Some(token) => {
                    &&& final(self).busy
                    &&& call matches Some(call) && call.is(
                        Method::Delete,
                        flag_path(project@, flag@),
                        Some(token@),
                    ) && call.body == Body::Nothing
                },
                None => *final(self) == *old(self) && call is None,
            },
    {
        match token {
            Some(token) => {
                self.busy = true;
                Some(api::delete_flag(token, project, flag))
            },
            None => None,
        }
    }

    /// What the server said of deleting, and where to go afterwards.
    pub fn deleted(&mut self, answer: Result<(), ApiError>, project: &str, flag: &str) -> (next: (
        Notice,
        Option<String>,
    ))
        ensures
            !final(self).busy,
            match answer {
                Ok(_) => next.0.succeeds(flag@ + " deleted"@) && maybe(next.1) == Some(
                    project_path(project@),
                ),
                Err(error) => next.0.fails("Could not delete the flag"@, error) && next.1 is None,
            },
    {
        self.busy = false;
        match answer {
            Ok(_) => {
                let mut title: String = flag.to_owned();
                title.append(" deleted");
                let mut route: String = "/projects/".to_owned();
                route.append(project);
                (Notice::success(title), Some(route))
            },
            Err(error) => (Notice::error("Could not delete the flag", &error), None),
        }
    }
}

// ------------------------------------------------------------------- the meaning

/// Two drafts are the same to the page exactly where they are the same part by
/// part, rule by rule.
pub proof fn drafts_are_told_apart(a: Draft, b: Draft)
    ensures
        a@ == b@ <==> {
            &&& a.enabled == b.enabled
            &&& a.off_variant@ == b.off_variant@
            &&& a.fallthrough@ == b.fallthrough@
            &&& a.rules@.len() == b.rules@.len()
            &&& forall|i: int| 0 <= i < a.rules@.len() ==> (#[trigger] a.rules@[i])@ == b.rules@[i]@
            &&& a.version == b.version
        },
{
    let x = rule_models(a.rules@);
    let y = rule_models(b.rules@);
    assert(x.len() == a.rules@.len() && y.len() == b.rules@.len());
    if a@ == b@ {
        assert forall|i: int| 0 <= i < a.rules@.len() implies (#[trigger] a.rules@[i])@
            == b.rules@[i]@ by {
            assert(x[i] == y[i]);
        }
    }
    if x.len() == y.len() && forall|i: int|
        0 <= i < a.rules@.len() ==> (#[trigger] a.rules@[i])@ == b.rules@[i]@ {
        assert(x =~= y);
    }
}

/// There is something to save exactly where the draft differs from what was
/// loaded: in whether it is on, its off variant, its fallthrough, its version, or
/// one of its rules, in identifier, description, conditions or distribution.
pub proof fn any_difference_is_worth_saving(page: FlagDetail, current: Draft, original: Draft)
    requires
        page.draft == Some(current),
        page.loaded == Load::Ready(original),
    ensures
        page.has_changes() <==> !{
            &&& current.enabled == original.enabled
            &&& current.off_variant@ == original.off_variant@
            &&& current.fallthrough@ == original.fallthrough@
            &&& current.version == original.version
            &&& current.rules@.len() == original.rules@.len()
            &&& forall|i: int|
                0 <= i < current.rules@.len() ==> rule_agrees(
                    (#[trigger] current.rules@[i])@,
                    original.rules@[i]@,
                )
        },
{
    let x = rule_models(current.rules@);
    let y = rule_models(original.rules@);
    assert(x.len() == current.rules@.len() && y.len() == original.rules@.len());
    if rules_agree(x, y) {
        assert forall|i: int| 0 <= i < current.rules@.len() implies rule_agrees(
            (#[trigger] current.rules@[i])@,
            original.rules@[i]@,
        ) by {
            assert(rule_agrees(x[i], y[i]));
        }
    }
    if x.len() == y.len() && forall|i: int|
        0 <= i < current.rules@.len() ==> rule_agrees(
            (#[trigger] current.rules@[i])@,
            original.rules@[i]@,
        ) {
        assert forall|i: int| 0 <= i < x.len() implies rule_agrees(
            #[trigger] x[i],
            #[trigger] y[i],
        ) by {
            assert(x[i] == current.rules@[i]@ && y[i] == original.rules@[i]@);
        }
    }
}

/// Until something is loaded and being edited, there is nothing to save.
pub proof fn nothing_loaded_is_nothing_to_save(page: FlagDetail)
    requires
        page.draft is None || !(page.loaded is Ready),
    ensures
        !page.has_changes(),
{
}

/// What is edited of a configuration is the configuration, part by part, with the
/// version it was read at.
pub proof fn a_draft_is_its_configuration(draft: Draft, config: FlagConfig)
    requires
        draft@ == draft_of(config),
    ensures
        draft.enabled == config.enabled,
        draft.off_variant@ == config.off_variant@,
        draft.fallthrough@ == config.fallthrough@,
        draft.rules@.len() == config.rules@.len(),
        forall|i: int|
            0 <= i < draft.rules@.len() ==> (#[trigger] draft.rules@[i])@ == config.rules@[i]@,
        draft.version == config.version,
{
    let x = rule_models(draft.rules@);
    let y = rule_models(config.rules@);
    assert(x.len() == draft.rules@.len() && y.len() == config.rules@.len());
    assert forall|i: int| 0 <= i < draft.rules@.len() implies (#[trigger] draft.rules@[i])@
        == config.rules@[i]@ by {
        assert(x[i] == y[i]);
    }
}

/// What is sent to be saved is the draft, part by part, guarded by the version the
/// draft was read at.
pub proof fn what_is_sent_is_the_draft(
    call: Call<'_>,
    token: Seq<char>,
    project: Seq<char>,
    environment: Seq<char>,
    flag: Seq<char>,
    draft: Draft,
)
    requires
        writes_draft(call, token, project, environment, flag, draft@),
    ensures
        call.method == Method::Put,
        call.body matches Body::Config(body) && {
            &&& body.enabled == draft.enabled
            &&& body.off_variant@ == draft.off_variant@
            &&& body.fallthrough@ == draft.fallthrough@
            &&& body.rules@.len() == draft.rules@.len()
            &&& forall|i: int|
                0 <= i < draft.rules@.len() ==> (#[trigger] body.rules@[i])@ == draft.rules@[i]@
            &&& body.expected_version == draft.version
        },
{
    let sent = call.body->Config_0;
    let x = rule_models(sent.rules@);
    let y = rule_models(draft.rules@);
    assert(x.len() == sent.rules@.len() && y.len() == draft.rules@.len());
    assert forall|i: int| 0 <= i < draft.rules@.len() implies (#[trigger] sent.rules@[i])@
        == draft.rules@[i]@ by {
        assert(x[i] == y[i]);
    }
}

/// What the engine is given is the draft, part by part, on or off as was asked.
pub proof fn what_is_evaluated_is_the_draft(
    flag: domain::Flag,
    key: Seq<char>,
    variants: Seq<Variant>,
    enabled: bool,
    draft: Draft,
)
    requires
        is_candidate(flag, key, variants, enabled, draft@),
    ensures
        flag.key@ == key,
        flag.variants@ == variants,
        flag.enabled == enabled,
        flag.off_variant@ == draft.off_variant@,
        flag.fallthrough@ == draft.fallthrough@,
        flag.rules@.len() == draft.rules@.len(),
        forall|i: int|
            0 <= i < draft.rules@.len() ==> (#[trigger] flag.rules@[i])@ == draft.rules@[i]@,
        flag.version == draft.version,
{
    let x = rule_models(flag.rules@);
    let y = rule_models(draft.rules@);
    assert(x.len() == flag.rules@.len() && y.len() == draft.rules@.len());
    assert forall|i: int| 0 <= i < draft.rules@.len() implies (#[trigger] flag.rules@[i])@
        == draft.rules@[i]@ by {
        assert(x[i] == y[i]);
    }
}

/// A change to one rule touches that rule and no other, and adds and drops none.
pub proof fn a_change_touches_one_rule(rules: Seq<RuleModel>, index: int, rule: RuleModel)
    ensures
        rule_changed(rules, index, rule).len() == rules.len(),
        forall|i: int|
            0 <= i < rules.len() ==> #[trigger] rule_changed(rules, index, rule)[i] == (if i
                == index {
                rule
            } else {
                rules[i]
            }),
{
}

/// A new rule serves the variant it was given to those on the pro plan.
pub proof fn a_new_rule_serves_its_variant(id: Uuid, variant: Seq<char>)
    ensures
        new_rule(id, variant).id == id,
        new_rule(id, variant).description is None,
        new_rule(id, variant).conditions.len() == 1,
        new_rule(id, variant).conditions[0] == is_text("plan"@, "pro"@),
        new_rule(id, variant).distribution == (DistributionModel::Fixed { variant }),
{
}

} // verus!
