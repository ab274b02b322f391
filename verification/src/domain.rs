//! The vocabulary of flags: what a flag serves, to whom, and how it is measured.

use vstd::prelude::*;

use crate::ids::Uuid;
use crate::keyset::KeySet;
use crate::text::{copy_maybe, maybe, same_maybe, same_text};
use crate::time::Timestamp;

verus! {

/// What the weights of a rollout add up to: a thousandth of a percent each.
pub const TOTAL_WEIGHT: u32 = 100_000;

// ------------------------------------------------------------------- variants

/// One of the values a flag can serve.
#[derive(Debug, PartialEq, Eq)]
pub struct Variant {
    pub key: String,
    /// The served value, as JSON text.
    pub value: String,
}

pub struct VariantModel {
    pub key: Seq<char>,
    pub value: Seq<char>,
}

impl View for Variant {
    type V = VariantModel;

    open spec fn view(&self) -> VariantModel {
        VariantModel { key: self.key@, value: self.value@ }
    }
}

impl Clone for Variant {
    fn clone(&self) -> (copy: Variant)
        ensures
            copy == *self,
    {
        Variant { key: self.key.clone(), value: self.value.clone() }
    }
}

/// A copy of a list of variants.
pub fn copy_variants(list: &Vec<Variant>) -> (copy: Vec<Variant>)
    ensures
        copy@ == list@,
{
    let mut copy: Vec<Variant> = Vec::new();
    for i in 0..list.len()
        invariant
            copy@ == list@.take(i as int),
    {
        copy.push(list[i].clone());
    }
    copy
}

/// The position of the first variant with a key.
pub open spec fn first_with_key(variants: Seq<Variant>, key: Seq<char>) -> Option<int>
    decreases variants.len(),
{
    if variants.len() == 0 {
        None
    } else {
        match first_with_key(variants.drop_last(), key) {
            Some(at) => Some(at),
            None => if variants.last().key@ == key {
                Some(variants.len() - 1)
            } else {
                None
            },
        }
    }
}

/// The position of the first variant with a key.
pub fn position_of(variants: &Vec<Variant>, key: &str) -> (at: Option<usize>)
    ensures
        match at {
            Some(i) => first_with_key(variants@, key@) == Some(i as int),
            None => first_with_key(variants@, key@) is None,
        },
{
    for i in 0..variants.len()
        invariant
            first_with_key(variants@.take(i as int), key@) is None,
    {
        proof {
            let longer = variants@.take(i + 1);
            assert(longer.drop_last() =~= variants@.take(i as int));
        }
        if same_text(variants[i].key.as_str(), key) {
            proof {
                first_stays_first(variants@, key@, i + 1);
            }
            return Some(i);
        }
    }
    assert(variants@.take(variants.len() as int) =~= variants@);
    None
}

/// What is first in a prefix is first in the whole.
proof fn first_stays_first(variants: Seq<Variant>, key: Seq<char>, prefix: int)
    requires
        0 <= prefix <= variants.len(),
        first_with_key(variants.take(prefix), key) is Some,
    ensures
        first_with_key(variants, key) == first_with_key(variants.take(prefix), key),
    decreases variants.len(),
{
    if prefix < variants.len() {
        assert(variants.drop_last().take(prefix) =~= variants.take(prefix));
        first_stays_first(variants.drop_last(), key, prefix);
    } else {
        assert(variants.take(prefix) =~= variants);
    }
}

/// The first variant with a key is one with that key, and none before it has it;
/// where there is none, no variant has the key.
pub proof fn first_with_key_is_first(variants: Seq<Variant>, key: Seq<char>)
    ensures
        match first_with_key(variants, key) {
            Some(at) => {
                &&& 0 <= at < variants.len()
                &&& variants[at].key@ == key
                &&& forall|i: int| 0 <= i < at ==> (#[trigger] variants[i]).key@ != key
            },
            None => forall|i: int| 0 <= i < variants.len() ==> (#[trigger] variants[i]).key@ != key,
        },
    decreases variants.len(),
{
    if variants.len() > 0 {
        let shorter = variants.drop_last();
        first_with_key_is_first(shorter, key);
        assert(forall|i: int| 0 <= i < shorter.len() ==> shorter[i] == variants[i]);
    }
}

// -------------------------------------------------------------- distributions

/// A variant's share of a rollout.
#[derive(Debug, PartialEq, Eq)]
pub struct WeightedVariant {
    pub variant: String,
    pub weight: u32,
}

impl Clone for WeightedVariant {
    fn clone(&self) -> (copy: WeightedVariant)
        ensures
            copy == *self,
    {
        WeightedVariant { variant: self.variant.clone(), weight: self.weight }
    }
}

pub struct WeightModel {
    pub variant: Seq<char>,
    pub weight: u32,
}

impl View for WeightedVariant {
    type V = WeightModel;

    open spec fn view(&self) -> WeightModel {
        WeightModel { variant: self.variant@, weight: self.weight }
    }
}

/// What the weights add up to.
pub open spec fn total_weight(weights: Seq<WeightedVariant>) -> int
    decreases weights.len(),
{
    if weights.len() == 0 {
        0
    } else {
        total_weight(weights.drop_last()) + weights.last().weight
    }
}

/// A copy of a list of weights.
pub fn copy_weights(list: &Vec<WeightedVariant>) -> (copy: Vec<WeightedVariant>)
    ensures
        copy@ == list@,
{
    let mut copy: Vec<WeightedVariant> = Vec::new();
    for i in 0..list.len()
        invariant
            copy@ == list@.take(i as int),
    {
        copy.push(list[i].clone());
    }
    copy
}

/// How a flag chooses what to serve.
#[derive(Debug, PartialEq, Eq)]
pub enum Distribution {
    /// The same variant for everyone.
    Fixed { variant: String },
    /// A share of the population for each variant.
    Rollout { weights: Vec<WeightedVariant>, bucket_by: Option<String> },
}

pub enum DistributionModel {
    Fixed { variant: Seq<char> },
    Rollout { weights: Seq<WeightModel>, bucket_by: Option<Seq<char>> },
}

impl View for Distribution {
    type V = DistributionModel;

    open spec fn view(&self) -> DistributionModel {
        match self {
            Distribution::Fixed { variant } => DistributionModel::Fixed { variant: variant@ },
            Distribution::Rollout { weights, bucket_by } => DistributionModel::Rollout {
                weights: weights@.map_values(|w: WeightedVariant| w@),
                bucket_by: maybe(*bucket_by),
            },
        }
    }
}

impl Clone for Distribution {
    fn clone(&self) -> (copy: Distribution)
        ensures
            copy@ == self@,
    {
        match self {
            Distribution::Fixed { variant } => Distribution::Fixed { variant: variant.clone() },
            Distribution::Rollout { weights, bucket_by } => Distribution::Rollout {
                weights: copy_weights(weights),
                bucket_by: copy_maybe(bucket_by),
            },
        }
    }
}

/// Whether two lists of weights agree.
fn same_weights(a: &Vec<WeightedVariant>, b: &Vec<WeightedVariant>) -> (same: bool)
    ensures
        same == (a@.map_values(|w: WeightedVariant| w@) == b@.map_values(|w: WeightedVariant| w@)),
{
    let ghost x = a@.map_values(|w: WeightedVariant| w@);
    let ghost y = b@.map_values(|w: WeightedVariant| w@);
    if a.len() != b.len() {
        assert(x.len() != y.len());
        return false;
    }
    for i in 0..a.len()
        invariant
            a.len() == b.len(),
            x == a@.map_values(|w: WeightedVariant| w@),
            y == b@.map_values(|w: WeightedVariant| w@),
            forall|j: int| 0 <= j < i ==> x[j] == y[j],
    {
        if a[i].weight != b[i].weight || !same_text(a[i].variant.as_str(), b[i].variant.as_str()) {
            assert(x[i as int] != y[i as int]);
            return false;
        }
    }
    assert(x =~= y);
    true
}

/// Whether two distributions are the same.
pub fn same_distribution(a: &Distribution, b: &Distribution) -> (same: bool)
    ensures
        same == (a@ == b@),
{
    match (a, b) {
        (Distribution::Fixed { variant: x }, Distribution::Fixed { variant: y }) => same_text(
            x.as_str(),
            y.as_str(),
        ),
        (
            Distribution::Rollout { weights: x, bucket_by: p },
            Distribution::Rollout { weights: y, bucket_by: q },
        ) => same_weights(x, y) && same_maybe(p, q),
        _ => false,
    }
}

// ----------------------------------------------------------------- conditions

/// How an attribute is compared with the values of a condition.
#[derive(Debug, Clone, Copy, PartialEq, Eq, Structural)]
pub enum Operator {
    In,
    NotIn,
    Contains,
    NotContains,
    StartsWith,
    EndsWith,
    GreaterThan,
    GreaterThanOrEqual,
    LessThan,
    LessThanOrEqual,
    Matches,
    NotMatches,
    SemverEqual,
    SemverGreaterThan,
    SemverLessThan,
    Exists,
    NotExists,
}

/// A double-precision number by its bit pattern.
#[derive(Debug, Clone, Copy)]
pub struct Number {
    pub bits: u64,
}

/// The bit pattern of a number without its sign.
pub open spec fn magnitude(n: Number) -> u64 {
    n.bits % 0x8000_0000_0000_0000
}

/// Whether a bit pattern stands for no number at all.
pub open spec fn is_nan(n: Number) -> bool {
    magnitude(n) > 0x7ff0_0000_0000_0000
}

/// Equality of numbers: nothing equals what is no number, and the two zeros
/// are one.
pub open spec fn number_agrees(a: Number, b: Number) -> bool {
    &&& !is_nan(a)
    &&& !is_nan(b)
    &&& a.bits == b.bits || (magnitude(a) == 0 && magnitude(b) == 0)
}

/// Equality of numbers.
pub fn same_number(a: Number, b: Number) -> (same: bool)
    ensures
        same == number_agrees(a, b),
{
    let x: u64 = a.bits % 0x8000_0000_0000_0000;
    let y: u64 = b.bits % 0x8000_0000_0000_0000;
    x <= 0x7ff0_0000_0000_0000 && y <= 0x7ff0_0000_0000_0000 && (a.bits == b.bits || (x == 0 && y
        == 0))
}

/// What an attribute of a context can be.
#[derive(Debug)]
pub enum AttributeValue {
    Text(String),
    Number(Number),
    Bool(bool),
}

pub enum AttributeModel {
    Text(Seq<char>),
    Number(Number),
    Bool(bool),
}

impl View for AttributeValue {
    type V = AttributeModel;

    open spec fn view(&self) -> AttributeModel {
        match self {
            AttributeValue::Text(text) => AttributeModel::Text(text@),
            AttributeValue::Number(number) => AttributeModel::Number(*number),
            AttributeValue::Bool(value) => AttributeModel::Bool(*value),
        }
    }
}

impl Clone for AttributeValue {
    fn clone(&self) -> (copy: AttributeValue)
        ensures
            copy == *self,
    {
        match self {
            AttributeValue::Text(text) => AttributeValue::Text(text.clone()),
            AttributeValue::Number(number) => AttributeValue::Number(*number),
            AttributeValue::Bool(value) => AttributeValue::Bool(*value),
        }
    }
}

/// The values of a list of attribute values.
pub open spec fn value_models(values: Seq<AttributeValue>) -> Seq<AttributeModel> {
    values.map_values(|v: AttributeValue| v@)
}

/// Equality of attribute values.
pub open spec fn value_agrees(a: AttributeModel, b: AttributeModel) -> bool {
    match (a, b) {
        (AttributeModel::Number(x), AttributeModel::Number(y)) => number_agrees(x, y),
        _ => a == b,
    }
}

/// Equality of attribute values.
pub fn same_value(a: &AttributeValue, b: &AttributeValue) -> (same: bool)
    ensures
        same == value_agrees(a@, b@),
{
    match (a, b) {
        (AttributeValue::Text(x), AttributeValue::Text(y)) => same_text(x.as_str(), y.as_str()),
        (AttributeValue::Number(x), AttributeValue::Number(y)) => same_number(*x, *y),
        (AttributeValue::Bool(x), AttributeValue::Bool(y)) => *x == *y,
        _ => false,
    }
}

/// A copy of a list of attribute values.
pub fn copy_values(list: &Vec<AttributeValue>) -> (copy: Vec<AttributeValue>)
    ensures
        copy@ == list@,
{
    let mut copy: Vec<AttributeValue> = Vec::new();
    for i in 0..list.len()
        invariant
            copy@ == list@.take(i as int),
    {
        copy.push(list[i].clone());
    }
    copy
}

/// A test on one attribute of a context.
#[derive(Debug)]
pub struct Condition {
    pub attribute: String,
    pub operator: Operator,
    pub values: Vec<AttributeValue>,
}

pub struct ConditionModel {
    pub attribute: Seq<char>,
    pub operator: Operator,
    pub values: Seq<AttributeModel>,
}

impl View for Condition {
    type V = ConditionModel;

    open spec fn view(&self) -> ConditionModel {
        ConditionModel {
            attribute: self.attribute@,
            operator: self.operator,
            values: value_models(self.values@),
        }
    }
}

impl Clone for Condition {
    fn clone(&self) -> (copy: Condition)
        ensures
            copy@ == self@,
    {
        Condition {
            attribute: self.attribute.clone(),
            operator: self.operator,
            values: copy_values(&self.values),
        }
    }
}

impl Condition {
    /// A condition on an attribute.
    pub fn new(attribute: &str, operator: Operator, values: Vec<AttributeValue>) -> (made: Condition)
        ensures
            made.attribute@ == attribute@,
            made.operator == operator,
            made.values == values,
    {
        Condition { attribute: attribute.to_owned(), operator, values }
    }

    /// A condition that an attribute is one single text.
    pub fn is_text(attribute: &str, text: &str) -> (made: Condition)
        ensures
            made@ == is_text(attribute@, text@),
    {
        let mut values: Vec<AttributeValue> = Vec::new();
        values.push(AttributeValue::Text(text.to_owned()));
        let made = Condition::new(attribute, Operator::In, values);
        assert(made@.values =~= is_text(attribute@, text@).values);
        made
    }
}

/// The condition that an attribute is one single text.
pub open spec fn is_text(attribute: Seq<char>, text: Seq<char>) -> ConditionModel {
    ConditionModel { attribute, operator: Operator::In, values: seq![AttributeModel::Text(text)] }
}

/// The conditions of a list.
pub open spec fn condition_models(conditions: Seq<Condition>) -> Seq<ConditionModel> {
    conditions.map_values(|c: Condition| c@)
}

/// Equality of conditions.
pub open spec fn condition_agrees(a: ConditionModel, b: ConditionModel) -> bool {
    &&& a.attribute == b.attribute
    &&& a.operator == b.operator
    &&& a.values.len() == b.values.len()
    &&& forall|i: int|
        0 <= i < a.values.len() ==> value_agrees(#[trigger] a.values[i], #[trigger] b.values[i])
}

/// Equality of conditions.
pub fn same_condition(a: &Condition, b: &Condition) -> (same: bool)
    ensures
        same == condition_agrees(a@, b@),
{
    if a.operator != b.operator || a.values.len() != b.values.len() || !same_text(
        a.attribute.as_str(),
        b.attribute.as_str(),
    ) {
        return false;
    }
    for i in 0..a.values.len()
        invariant
            a.values.len() == b.values.len(),
            forall|j: int| 0 <= j < i ==> value_agrees(#[trigger] a@.values[j], b@.values[j]),
    {
        if !same_value(&a.values[i], &b.values[i]) {
            assert(!value_agrees(a@.values[i as int], b@.values[i as int]));
            return false;
        }
    }
    true
}

/// Equality of lists of conditions.
pub open spec fn conditions_agree(a: Seq<ConditionModel>, b: Seq<ConditionModel>) -> bool {
    &&& a.len() == b.len()
    &&& forall|i: int| 0 <= i < a.len() ==> condition_agrees(#[trigger] a[i], #[trigger] b[i])
}

/// Equality of lists of conditions.
pub fn same_conditions(a: &Vec<Condition>, b: &Vec<Condition>) -> (same: bool)
    ensures
        same == conditions_agree(condition_models(a@), condition_models(b@)),
{
    let ghost x = condition_models(a@);
    let ghost y = condition_models(b@);
    if a.len() != b.len() {
        return false;
    }
    for i in 0..a.len()
        invariant
            a.len() == b.len(),
            x == condition_models(a@),
            y == condition_models(b@),
            forall|j: int| 0 <= j < i ==> condition_agrees(#[trigger] x[j], y[j]),
    {
        if !same_condition(&a[i], &b[i]) {
            assert(!condition_agrees(x[i as int], y[i as int]));
            return false;
        }
    }
    true
}

/// A copy of a list of conditions.
pub fn copy_conditions(list: &Vec<Condition>) -> (copy: Vec<Condition>)
    ensures
        condition_models(copy@) == condition_models(list@),
{
    let mut copy: Vec<Condition> = Vec::new();
    for i in 0..list.len()
        invariant
            copy.len() == i,
            forall|j: int| 0 <= j < i ==> (#[trigger] copy@[j])@ == list@[j]@,
    {
        copy.push(list[i].clone());
    }
    assert(condition_models(copy@) =~= condition_models(list@));
    copy
}

// ---------------------------------------------------------------------- rules

/// A targeting rule: what to serve where all conditions hold.
#[derive(Debug)]
pub struct Rule {
    pub id: Uuid,
    pub description: Option<String>,
    pub conditions: Vec<Condition>,
    pub distribution: Distribution,
}

pub struct RuleModel {
    pub id: Uuid,
    pub description: Option<Seq<char>>,
    pub conditions: Seq<ConditionModel>,
    pub distribution: DistributionModel,
}

impl View for Rule {
    type V = RuleModel;

    open spec fn view(&self) -> RuleModel {
        RuleModel {
            id: self.id,
            description: maybe(self.description),
            conditions: condition_models(self.conditions@),
            distribution: self.distribution@,
        }
    }
}

impl Clone for Rule {
    fn clone(&self) -> (copy: Rule)
        ensures
            copy@ == self@,
    {
        Rule {
            id: self.id,
            description: copy_maybe(&self.description),
            conditions: copy_conditions(&self.conditions),
            distribution: self.distribution.clone(),
        }
    }
}

/// The rules of a list.
pub open spec fn rule_models(rules: Seq<Rule>) -> Seq<RuleModel> {
    rules.map_values(|r: Rule| r@)
}

/// Equality of rules.
pub open spec fn rule_agrees(a: RuleModel, b: RuleModel) -> bool {
    &&& a.id == b.id
    &&& a.description == b.description
    &&& conditions_agree(a.conditions, b.conditions)
    &&& a.distribution == b.distribution
}

/// Equality of lists of rules.
pub open spec fn rules_agree(a: Seq<RuleModel>, b: Seq<RuleModel>) -> bool {
    &&& a.len() == b.len()
    &&& forall|i: int| 0 <= i < a.len() ==> rule_agrees(#[trigger] a[i], #[trigger] b[i])
}

/// Equality of rules.
pub fn same_rule(a: &Rule, b: &Rule) -> (same: bool)
    ensures
        same == rule_agrees(a@, b@),
{
    a.id == b.id && same_maybe(&a.description, &b.description) && same_conditions(
        &a.conditions,
        &b.conditions,
    ) && same_distribution(&a.distribution, &b.distribution)
}

/// Equality of lists of rules.
pub fn same_rules(a: &Vec<Rule>, b: &Vec<Rule>) -> (same: bool)
    ensures
        same == rules_agree(rule_models(a@), rule_models(b@)),
{
    let ghost x = rule_models(a@);
    let ghost y = rule_models(b@);
    if a.len() != b.len() {
        return false;
    }
    for i in 0..a.len()
        invariant
            a.len() == b.len(),
            x == rule_models(a@),
            y == rule_models(b@),
            forall|j: int| 0 <= j < i ==> rule_agrees(#[trigger] x[j], y[j]),
    {
        if !same_rule(&a[i], &b[i]) {
            assert(!rule_agrees(x[i as int], y[i as int]));
            return false;
        }
    }
    true
}

/// A copy of a list of rules.
pub fn copy_rules(list: &Vec<Rule>) -> (copy: Vec<Rule>)
    ensures
        rule_models(copy@) == rule_models(list@),
{
    let mut copy: Vec<Rule> = Vec::new();
    for i in 0..list.len()
        invariant
            copy.len() == i,
            forall|j: int| 0 <= j < i ==> (#[trigger] copy@[j])@ == list@[j]@,
    {
        copy.push(list[i].clone());
    }
    assert(rule_models(copy@) =~= rule_models(list@));
    copy
}

// ------------------------------------------------------------------ audiences

/// The share of matching contexts that a segment rule admits.
#[derive(Debug, PartialEq, Eq)]
pub struct SegmentRollout {
    pub percentage: u32,
    pub bucket_by: Option<String>,
}

/// One way into a segment: all conditions hold, and the rollout admits.
#[derive(Debug)]
pub struct SegmentRule {
    pub id: Uuid,
    pub description: Option<String>,
    pub conditions: Vec<Condition>,
    pub rollout: Option<SegmentRollout>,
}

pub struct RolloutModel {
    pub percentage: u32,
    pub bucket_by: Option<Seq<char>>,
}

pub struct SegmentRuleModel {
    pub id: Uuid,
    pub description: Option<Seq<char>>,
    pub conditions: Seq<ConditionModel>,
    pub rollout: Option<RolloutModel>,
}

impl View for SegmentRollout {
    type V = RolloutModel;

    open spec fn view(&self) -> RolloutModel {
        RolloutModel { percentage: self.percentage, bucket_by: maybe(self.bucket_by) }
    }
}

/// The rollout of a segment rule, where there is one.
pub open spec fn rollout_model(rollout: Option<SegmentRollout>) -> Option<RolloutModel> {
    match rollout {
        Some(r) => Some(r@),
        None => None,
    }
}

impl View for SegmentRule {
    type V = SegmentRuleModel;

    open spec fn view(&self) -> SegmentRuleModel {
        SegmentRuleModel {
            id: self.id,
            description: maybe(self.description),
            conditions: condition_models(self.conditions@),
            rollout: rollout_model(self.rollout),
        }
    }
}

impl Clone for SegmentRollout {
    fn clone(&self) -> (copy: SegmentRollout)
        ensures
            copy == *self,
    {
        SegmentRollout { percentage: self.percentage, bucket_by: copy_maybe(&self.bucket_by) }
    }
}

impl Clone for SegmentRule {
    fn clone(&self) -> (copy: SegmentRule)
        ensures
            copy@ == self@,
    {
        SegmentRule {
            id: self.id,
            description: copy_maybe(&self.description),
            conditions: copy_conditions(&self.conditions),
            rollout: match &self.rollout {
                Some(rollout) => Some(rollout.clone()),
                None => None,
            },
        }
    }
}

impl SegmentRule {
    /// A rule that admits everyone its conditions match.
    pub fn new(id: Uuid, conditions: Vec<Condition>) -> (rule: SegmentRule)
        ensures
            rule == (SegmentRule { id, description: None, conditions, rollout: None }),
    {
        SegmentRule { id, description: None, conditions, rollout: None }
    }
}

/// The segment rules of a list.
pub open spec fn segment_rule_models(rules: Seq<SegmentRule>) -> Seq<SegmentRuleModel> {
    rules.map_values(|r: SegmentRule| r@)
}

/// A copy of a list of segment rules.
pub fn copy_segment_rules(list: &Vec<SegmentRule>) -> (copy: Vec<SegmentRule>)
    ensures
        segment_rule_models(copy@) == segment_rule_models(list@),
{
    let mut copy: Vec<SegmentRule> = Vec::new();
    for i in 0..list.len()
        invariant
            copy.len() == i,
            forall|j: int| 0 <= j < i ==> (#[trigger] copy@[j])@ == list@[j]@,
    {
        copy.push(list[i].clone());
    }
    assert(segment_rule_models(copy@) =~= segment_rule_models(list@));
    copy
}

/// A reusable audience, as evaluation sees it.
#[derive(Debug)]
pub struct Segment {
    pub key: String,
    pub description: Option<String>,
    pub included: KeySet,
    pub excluded: KeySet,
    pub rules: Vec<SegmentRule>,
    pub version: i64,
}

// ---------------------------------------------------------------- experiments

/// A running experiment, as an SDK sees it.
#[derive(Debug, PartialEq, Eq)]
pub struct ExperimentSpec {
    pub key: String,
    pub flag_key: String,
    pub metric_key: String,
    pub control_variant: String,
    pub version: i64,
}

/// What one arm of an experiment has counted.
#[derive(Debug, PartialEq, Eq)]
pub struct VariantCounts {
    pub variant: String,
    pub exposures: u64,
    pub conversions: u64,
}

/// A rate between two bounds, by its bit patterns.
#[derive(Debug, Clone, Copy)]
pub struct Interval {
    pub low: Number,
    pub high: Number,
}

/// How an arm compares with the control.
#[derive(Debug, Clone, Copy)]
pub struct Comparison {
    pub lift: Number,
    pub p_value: Number,
    pub significant: bool,
}

/// One arm of an experiment, judged.
#[derive(Debug, Clone)]
pub struct VariantResult {
    pub variant: String,
    pub exposures: u64,
    pub conversions: u64,
    pub rate: Option<Number>,
    pub interval: Option<Interval>,
    pub vs_control: Option<Comparison>,
}

// ------------------------------------------------------------------ snapshots

/// A flag as one environment serves it.
#[derive(Debug)]
pub struct Flag {
    pub key: String,
    pub variants: Vec<Variant>,
    pub enabled: bool,
    pub off_variant: String,
    pub fallthrough: Distribution,
    pub rules: Vec<Rule>,
    pub version: i64,
}

/// Everything one environment needs to answer evaluations.
#[derive(Debug)]
pub struct EnvironmentSnapshot {
    pub environment_id: Uuid,
    pub environment_key: String,
    pub salt: String,
    pub flags: Vec<Flag>,
    pub generated_at: Timestamp,
}

/// One problem with a configuration: where it is, and what it is.
#[derive(Debug, PartialEq, Eq)]
pub struct ValidationIssue {
    pub path: String,
    pub message: String,
}

impl Clone for ValidationIssue {
    fn clone(&self) -> (copy: ValidationIssue)
        ensures
            copy == *self,
    {
        ValidationIssue { path: self.path.clone(), message: self.message.clone() }
    }
}

// -------------------------------------------------------------------- the meaning

/// Two variants are the same exactly where key and value are.
pub proof fn variants_are_told_apart(a: Variant, b: Variant)
    ensures
        a@ == b@ <==> a.key@ == b.key@ && a.value@ == b.value@,
{
}

/// The total of a rollout is the sum of its weights.
pub proof fn a_total_is_the_sum(weights: Seq<WeightedVariant>)
    ensures
        total_weight(weights) == weights.map_values(|w: WeightedVariant| w.weight as int).fold_left(
            0,
            |sum: int, n: int| sum + n,
        ),
    decreases weights.len(),
{
    let numbers = weights.map_values(|w: WeightedVariant| w.weight as int);
    if weights.len() > 0 {
        a_total_is_the_sum(weights.drop_last());
        assert(numbers.drop_last() =~= weights.drop_last().map_values(
            |w: WeightedVariant| w.weight as int,
        ));
    }
}

/// Two distributions are the same exactly where they serve the same variant, or
/// give the same variants the same weights in the same order and bucket by the
/// same attribute.
pub proof fn distributions_are_told_apart(a: Distribution, b: Distribution)
    ensures
        a@ == b@ <==> (match (a, b) {
            (Distribution::Fixed { variant: x }, Distribution::Fixed { variant: y }) => x@ == y@,
            (
                Distribution::Rollout { weights: x, bucket_by: p },
                Distribution::Rollout { weights: y, bucket_by: q },
            ) => {
                &&& x@.len() == y@.len()
                &&& forall|i: int|
                    0 <= i < x@.len() ==> (#[trigger] x@[i]).variant@ == y@[i].variant@
                        && x@[i].weight == y@[i].weight
                &&& match (p, q) {
                    (Some(s), Some(t)) => s@ == t@,
                    (None, None) => true,
                    _ => false,
                }
            },
            _ => false,
        }),
{
    if let (
        Distribution::Rollout { weights: x, bucket_by: p },
        Distribution::Rollout { weights: y, bucket_by: q },
    ) = (a, b) {
        let m = x@.map_values(|w: WeightedVariant| w@);
        let n = y@.map_values(|w: WeightedVariant| w@);
        if a@ == b@ {
            assert(m == n);
            assert(m.len() == n.len());
            assert forall|i: int| 0 <= i < x@.len() implies (#[trigger] x@[i]).variant@
                == y@[i].variant@ && x@[i].weight == y@[i].weight by {
                assert(m[i] == n[i]);
            }
        }
        if x@.len() == y@.len() && forall|i: int|
            0 <= i < x@.len() ==> (#[trigger] x@[i]).variant@ == y@[i].variant@ && x@[i].weight
                == y@[i].weight {
            assert(m =~= n);
        }
    }
}

/// Numbers are compared as numbers: no number equals itself exactly where its bits
/// stand for none, equality goes both ways, and different bits are equal only for
/// the two zeros.
pub proof fn numbers_are_compared_by_value(a: Number, b: Number)
    ensures
        number_agrees(a, a) <==> (a.bits <= 0x7ff0_0000_0000_0000 || 0x8000_0000_0000_0000 <= a.bits
            <= 0xfff0_0000_0000_0000),
        number_agrees(a, b) <==> number_agrees(b, a),
        number_agrees(a, b) && a.bits != b.bits ==> (a.bits == 0 || a.bits
            == 0x8000_0000_0000_0000) && (b.bits == 0 || b.bits == 0x8000_0000_0000_0000),
        a.bits == 0 && b.bits == 0x8000_0000_0000_0000 ==> number_agrees(a, b),
        a.bits == b.bits && number_agrees(a, a) ==> number_agrees(a, b),
        is_nan(a) <==> !number_agrees(a, a),
{
}

/// Two attribute values are the same exactly where they are of one kind and hold
/// the same; they are equal exactly where, besides, numbers compare as numbers.
pub proof fn values_are_told_apart(a: AttributeValue, b: AttributeValue)
    ensures
        a@ == b@ <==> (match (a, b) {
            (AttributeValue::Text(x), AttributeValue::Text(y)) => x@ == y@,
            (AttributeValue::Number(x), AttributeValue::Number(y)) => x.bits == y.bits,
            (AttributeValue::Bool(x), AttributeValue::Bool(y)) => x == y,
            _ => false,
        }),
        value_agrees(a@, b@) <==> (match (a, b) {
            (AttributeValue::Text(x), AttributeValue::Text(y)) => x@ == y@,
            (AttributeValue::Number(x), AttributeValue::Number(y)) => number_agrees(x, y),
            (AttributeValue::Bool(x), AttributeValue::Bool(y)) => x == y,
            _ => false,
        }),
{
}

/// Two conditions are the same exactly where attribute, operator and values are,
/// value by value; they are equal exactly where, besides, the values are equal.
pub proof fn conditions_are_told_apart(a: Condition, b: Condition)
    ensures
        a@ == b@ <==> {
            &&& a.attribute@ == b.attribute@
            &&& a.operator == b.operator
            &&& a.values@.len() == b.values@.len()
            &&& forall|i: int|
                0 <= i < a.values@.len() ==> (#[trigger] a.values@[i])@ == b.values@[i]@
        },
        condition_agrees(a@, b@) <==> {
            &&& a.attribute@ == b.attribute@
            &&& a.operator == b.operator
            &&& a.values@.len() == b.values@.len()
            &&& forall|i: int|
                0 <= i < a.values@.len() ==> value_agrees((#[trigger] a.values@[i])@, b.values@[i]@)
        },
{
    let x = value_models(a.values@);
    let y = value_models(b.values@);
    assert(x.len() == a.values@.len() && y.len() == b.values@.len());
    if a@ == b@ {
        assert forall|i: int| 0 <= i < a.values@.len() implies (#[trigger] a.values@[i])@
            == b.values@[i]@ by {
            assert(x[i] == y[i]);
        }
    }
    if a.values@.len() == b.values@.len() && forall|i: int|
        0 <= i < a.values@.len() ==> (#[trigger] a.values@[i])@ == b.values@[i]@ {
        assert(x =~= y);
    }
    if condition_agrees(a@, b@) {
        assert forall|i: int| 0 <= i < a.values@.len() implies value_agrees(
            (#[trigger] a.values@[i])@,
            b.values@[i]@,
        ) by {
            assert(value_agrees(a@.values[i], b@.values[i]));
        }
    }
    if a.values@.len() == b.values@.len() && forall|i: int|
        0 <= i < a.values@.len() ==> value_agrees((#[trigger] a.values@[i])@, b.values@[i]@) {
        assert forall|i: int| 0 <= i < a@.values.len() implies value_agrees(
            #[trigger] a@.values[i],
            #[trigger] b@.values[i],
        ) by {
            assert(a@.values[i] == a.values@[i]@ && b@.values[i] == b.values@[i]@);
        }
    }
}

/// The condition that an attribute is one text asks for that attribute and for
/// that one text.
pub proof fn one_text_is_asked_for(made: Condition, attribute: Seq<char>, text: Seq<char>)
    requires
        made@ == is_text(attribute, text),
    ensures
        made.attribute@ == attribute,
        made.operator == Operator::In,
        made.values@.len() == 1,
        made.values@[0] matches AttributeValue::Text(value) && value@ == text,
{
    assert(value_models(made.values@).len() == 1);
    assert(value_models(made.values@)[0] == made.values@[0]@);
}

/// The models of a list are those of its items, each in its place.
pub proof fn models_stay_in_place(
    conditions: Seq<Condition>,
    rules: Seq<Rule>,
    segment_rules: Seq<SegmentRule>,
    values: Seq<AttributeValue>,
)
    ensures
        condition_models(conditions).len() == conditions.len(),
        forall|i: int|
            0 <= i < conditions.len() ==> #[trigger] condition_models(conditions)[i]
                == conditions[i]@,
        rule_models(rules).len() == rules.len(),
        forall|i: int| 0 <= i < rules.len() ==> #[trigger] rule_models(rules)[i] == rules[i]@,
        segment_rule_models(segment_rules).len() == segment_rules.len(),
        forall|i: int|
            0 <= i < segment_rules.len() ==> #[trigger] segment_rule_models(segment_rules)[i]
                == segment_rules[i]@,
        value_models(values).len() == values.len(),
        forall|i: int| 0 <= i < values.len() ==> #[trigger] value_models(values)[i] == values[i]@,
{
}

/// Two rules are the same exactly where identifier, description, conditions and
/// distribution are; they are equal exactly where, besides, the conditions are
/// equal one by one.
pub proof fn rules_are_told_apart(a: Rule, b: Rule)
    ensures
        a@ == b@ <==> {
            &&& a.id == b.id
            &&& match (a.description, b.description) {
                (Some(s), Some(t)) => s@ == t@,
                (None, None) => true,
                _ => false,
            }
            &&& a.conditions@.len() == b.conditions@.len()
            &&& forall|i: int|
                0 <= i < a.conditions@.len() ==> (#[trigger] a.conditions@[i])@
                    == b.conditions@[i]@
            &&& a.distribution@ == b.distribution@
        },
        rule_agrees(a@, b@) <==> {
            &&& a.id == b.id
            &&& match (a.description, b.description) {
                (Some(s), Some(t)) => s@ == t@,
                (None, None) => true,
                _ => false,
            }
            &&& a.conditions@.len() == b.conditions@.len()
            &&& forall|i: int|
                0 <= i < a.conditions@.len() ==> condition_agrees(
                    (#[trigger] a.conditions@[i])@,
                    b.conditions@[i]@,
                )
            &&& a.distribution@ == b.distribution@
        },
{
    let x = condition_models(a.conditions@);
    let y = condition_models(b.conditions@);
    assert(x.len() == a.conditions@.len() && y.len() == b.conditions@.len());
    if a@ == b@ {
        assert forall|i: int| 0 <= i < a.conditions@.len() implies (#[trigger] a.conditions@[i])@
            == b.conditions@[i]@ by {
            assert(x[i] == y[i]);
        }
    }
    if x.len() == y.len() && forall|i: int|
        0 <= i < a.conditions@.len() ==> (#[trigger] a.conditions@[i])@ == b.conditions@[i]@ {
        assert(x =~= y);
    }
    if rule_agrees(a@, b@) {
        assert forall|i: int| 0 <= i < a.conditions@.len() implies condition_agrees(
            (#[trigger] a.conditions@[i])@,
            b.conditions@[i]@,
        ) by {
            assert(condition_agrees(x[i], y[i]));
        }
    }
    if x.len() == y.len() && forall|i: int|
        0 <= i < a.conditions@.len() ==> condition_agrees(
            (#[trigger] a.conditions@[i])@,
            b.conditions@[i]@,
        ) {
        assert forall|i: int| 0 <= i < x.len() implies condition_agrees(
            #[trigger] x[i],
            #[trigger] y[i],
        ) by {
            assert(x[i] == a.conditions@[i]@ && y[i] == b.conditions@[i]@);
        }
    }
}

/// Two segment rules are the same exactly where identifier, description,
/// conditions and rollout are.
pub proof fn segment_rules_are_told_apart(a: SegmentRule, b: SegmentRule)
    ensures
        a@ == b@ <==> {
            &&& a.id == b.id
            &&& match (a.description, b.description) {
                (Some(s), Some(t)) => s@ == t@,
                (None, None) => true,
                _ => false,
            }
            &&& a.conditions@.len() == b.conditions@.len()
            &&& forall|i: int|
                0 <= i < a.conditions@.len() ==> (#[trigger] a.conditions@[i])@
                    == b.conditions@[i]@
            &&& match (a.rollout, b.rollout) {
                (Some(p), Some(q)) => p.percentage == q.percentage && (match (
                    p.bucket_by,
                    q.bucket_by,
                ) {
                    (Some(s), Some(t)) => s@ == t@,
                    (None, None) => true,
                    _ => false,
                }),
                (None, None) => true,
                _ => false,
            }
        },
{
    let x = condition_models(a.conditions@);
    let y = condition_models(b.conditions@);
    assert(x.len() == a.conditions@.len() && y.len() == b.conditions@.len());
    if a@ == b@ {
        assert forall|i: int| 0 <= i < a.conditions@.len() implies (#[trigger] a.conditions@[i])@
            == b.conditions@[i]@ by {
            assert(x[i] == y[i]);
        }
    }
    if x.len() == y.len() && forall|i: int|
        0 <= i < a.conditions@.len() ==> (#[trigger] a.conditions@[i])@ == b.conditions@[i]@ {
        assert(x =~= y);
    }
}

} // verus!
