//! Conditions: the operators on offer, what a list of values means, and the
//! edits that flag rules and segment rules share.

use vstd::prelude::*;

use crate::domain::{
    condition_models, is_text, value_models, AttributeModel, AttributeValue, Condition,
    ConditionModel, Number, Operator,
};
use crate::text::{entries, entries_of, join, joined, same_text, split_on, texts, trim, trimmed};

verus! {

// ------------------------------------------------------------------- operators

impl Operator {
    /// How an operator is written on the wire.
    pub open spec fn name(self) -> Seq<char> {
        match self {
            Operator::In => "in"@,
            Operator::NotIn => "not_in"@,
            Operator::Contains => "contains"@,
            Operator::NotContains => "not_contains"@,
            Operator::StartsWith => "starts_with"@,
            Operator::EndsWith => "ends_with"@,
            Operator::GreaterThan => "greater_than"@,
            Operator::GreaterThanOrEqual => "greater_than_or_equal"@,
            Operator::LessThan => "less_than"@,
            Operator::LessThanOrEqual => "less_than_or_equal"@,
            Operator::Matches => "matches"@,
            Operator::NotMatches => "not_matches"@,
            Operator::SemverEqual => "semver_equal"@,
            Operator::SemverGreaterThan => "semver_greater_than"@,
            Operator::SemverLessThan => "semver_less_than"@,
            Operator::Exists => "exists"@,
            Operator::NotExists => "not_exists"@,
        }
    }

    /// How an operator is put to the user.
    pub open spec fn wording(self) -> Seq<char> {
        match self {
            Operator::In => "is any of"@,
            Operator::NotIn => "is none of"@,
            Operator::Contains => "contains"@,
            Operator::NotContains => "does not contain"@,
            Operator::StartsWith => "starts with"@,
            Operator::EndsWith => "ends with"@,
            Operator::GreaterThan => ">"@,
            Operator::GreaterThanOrEqual => "\u{2265}"@,
            Operator::LessThan => "<"@,
            Operator::LessThanOrEqual => "\u{2264}"@,
            Operator::Matches => "matches regex"@,
            Operator::NotMatches => "does not match regex"@,
            Operator::SemverEqual => "version ="@,
            Operator::SemverGreaterThan => "version >"@,
            Operator::SemverLessThan => "version <"@,
            Operator::Exists => "is present"@,
            Operator::NotExists => "is absent"@,
        }
    }

    /// How an operator is put to the user.
    pub fn label(self) -> (text: &'static str)
        ensures
            text@ == self.wording(),
            match self {
                Operator::In => text@ == "is any of"@,
                Operator::NotIn => text@ == "is none of"@,
                Operator::Contains => text@ == "contains"@,
                Operator::NotContains => text@ == "does not contain"@,
                Operator::StartsWith => text@ == "starts with"@,
                Operator::EndsWith => text@ == "ends with"@,
                Operator::GreaterThan => text@ == ">"@,
                Operator::GreaterThanOrEqual => text@ == "\u{2265}"@,
                Operator::LessThan => text@ == "<"@,
                Operator::LessThanOrEqual => text@ == "\u{2264}"@,
                Operator::Matches => text@ == "matches regex"@,
                Operator::NotMatches => text@ == "does not match regex"@,
                Operator::SemverEqual => text@ == "version ="@,
                Operator::SemverGreaterThan => text@ == "version >"@,
                Operator::SemverLessThan => text@ == "version <"@,
                Operator::Exists => text@ == "is present"@,
                Operator::NotExists => text@ == "is absent"@,
            },
    {
        match self {
            Operator::In => "is any of",
            Operator::NotIn => "is none of",
            Operator::Contains => "contains",
            Operator::NotContains => "does not contain",
            Operator::StartsWith => "starts with",
            Operator::EndsWith => "ends with",
            Operator::GreaterThan => ">",
            Operator::GreaterThanOrEqual => "\u{2265}",
            Operator::LessThan => "<",
            Operator::LessThanOrEqual => "\u{2264}",
            Operator::Matches => "matches regex",
            Operator::NotMatches => "does not match regex",
            Operator::SemverEqual => "version =",
            Operator::SemverGreaterThan => "version >",
            Operator::SemverLessThan => "version <",
            Operator::Exists => "is present",
            Operator::NotExists => "is absent",
        }
    }
}

/// Every operator, in the order they are offered.
pub open spec fn offered() -> Seq<Operator> {
    seq![
        Operator::In,
        Operator::NotIn,
        Operator::Contains,
        Operator::NotContains,
        Operator::StartsWith,
        Operator::EndsWith,
        Operator::GreaterThan,
        Operator::GreaterThanOrEqual,
        Operator::LessThan,
        Operator::LessThanOrEqual,
        Operator::Matches,
        Operator::NotMatches,
        Operator::SemverEqual,
        Operator::SemverGreaterThan,
        Operator::SemverLessThan,
        Operator::Exists,
        Operator::NotExists,
    ]
}

/// Every operator, in the order they are offered.
pub fn operators() -> (list: Vec<Operator>)
    ensures
        list@ == offered(),
        list@.len() == 17,
        list@.no_duplicates(),
{
    let mut list: Vec<Operator> = Vec::new();
    list.push(Operator::In);
    list.push(Operator::NotIn);
    list.push(Operator::Contains);
    list.push(Operator::NotContains);
    list.push(Operator::StartsWith);
    list.push(Operator::EndsWith);
    list.push(Operator::GreaterThan);
    list.push(Operator::GreaterThanOrEqual);
    list.push(Operator::LessThan);
    list.push(Operator::LessThanOrEqual);
    list.push(Operator::Matches);
    list.push(Operator::NotMatches);
    list.push(Operator::SemverEqual);
    list.push(Operator::SemverGreaterThan);
    list.push(Operator::SemverLessThan);
    list.push(Operator::Exists);
    list.push(Operator::NotExists);
    assert(list@ =~= offered());
    list
}

/// No operator is left out.
pub proof fn every_operator_is_offered(operator: Operator)
    ensures
        offered().contains(operator),
{
    let list = offered();
    match operator {
        Operator::In => assert(list[0] == operator),
        Operator::NotIn => assert(list[1] == operator),
        Operator::Contains => assert(list[2] == operator),
        Operator::NotContains => assert(list[3] == operator),
        Operator::StartsWith => assert(list[4] == operator),
        Operator::EndsWith => assert(list[5] == operator),
        Operator::GreaterThan => assert(list[6] == operator),
        Operator::GreaterThanOrEqual => assert(list[7] == operator),
        Operator::LessThan => assert(list[8] == operator),
        Operator::LessThanOrEqual => assert(list[9] == operator),
        Operator::Matches => assert(list[10] == operator),
        Operator::NotMatches => assert(list[11] == operator),
        Operator::SemverEqual => assert(list[12] == operator),
        Operator::SemverGreaterThan => assert(list[13] == operator),
        Operator::SemverLessThan => assert(list[14] == operator),
        Operator::Exists => assert(list[15] == operator),
        Operator::NotExists => assert(list[16] == operator),
    }
}

/// How an operator is written on the wire.
pub fn operator_key(operator: Operator) -> (text: &'static str)
    ensures
        text@ == operator.name(),
        match operator {
            Operator::In => text@ == "in"@,
            Operator::NotIn => text@ == "not_in"@,
            Operator::Contains => text@ == "contains"@,
            Operator::NotContains => text@ == "not_contains"@,
            Operator::StartsWith => text@ == "starts_with"@,
            Operator::EndsWith => text@ == "ends_with"@,
            Operator::GreaterThan => text@ == "greater_than"@,
            Operator::GreaterThanOrEqual => text@ == "greater_than_or_equal"@,
            Operator::LessThan => text@ == "less_than"@,
            Operator::LessThanOrEqual => text@ == "less_than_or_equal"@,
            Operator::Matches => text@ == "matches"@,
            Operator::NotMatches => text@ == "not_matches"@,
            Operator::SemverEqual => text@ == "semver_equal"@,
            Operator::SemverGreaterThan => text@ == "semver_greater_than"@,
            Operator::SemverLessThan => text@ == "semver_less_than"@,
            Operator::Exists => text@ == "exists"@,
            Operator::NotExists => text@ == "not_exists"@,
        },
{
    match operator {
        Operator::In => "in",
        Operator::NotIn => "not_in",
        Operator::Contains => "contains",
        Operator::NotContains => "not_contains",
        Operator::StartsWith => "starts_with",
        Operator::EndsWith => "ends_with",
        Operator::GreaterThan => "greater_than",
        Operator::GreaterThanOrEqual => "greater_than_or_equal",
        Operator::LessThan => "less_than",
        Operator::LessThanOrEqual => "less_than_or_equal",
        Operator::Matches => "matches",
        Operator::NotMatches => "not_matches",
        Operator::SemverEqual => "semver_equal",
        Operator::SemverGreaterThan => "semver_greater_than",
        Operator::SemverLessThan => "semver_less_than",
        Operator::Exists => "exists",
        Operator::NotExists => "not_exists",
    }
}

/// The operator a text names.
pub open spec fn operator_named(raw: Seq<char>) -> Option<Operator> {
    if raw == "in"@ {
        Some(Operator::In)
    } else if raw == "not_in"@ {
        Some(Operator::NotIn)
    } else if raw == "contains"@ {
        Some(Operator::Contains)
    } else if raw == "not_contains"@ {
        Some(Operator::NotContains)
    } else if raw == "starts_with"@ {
        Some(Operator::StartsWith)
    } else if raw == "ends_with"@ {
        Some(Operator::EndsWith)
    } else if raw == "greater_than"@ {
        Some(Operator::GreaterThan)
    } else if raw == "greater_than_or_equal"@ {
        Some(Operator::GreaterThanOrEqual)
    } else if raw == "less_than"@ {
        Some(Operator::LessThan)
    } else if raw == "less_than_or_equal"@ {
        Some(Operator::LessThanOrEqual)
    } else if raw == "matches"@ {
        Some(Operator::Matches)
    } else if raw == "not_matches"@ {
        Some(Operator::NotMatches)
    } else if raw == "semver_equal"@ {
        Some(Operator::SemverEqual)
    } else if raw == "semver_greater_than"@ {
        Some(Operator::SemverGreaterThan)
    } else if raw == "semver_less_than"@ {
        Some(Operator::SemverLessThan)
    } else if raw == "exists"@ {
        Some(Operator::Exists)
    } else if raw == "not_exists"@ {
        Some(Operator::NotExists)
    } else {
        None
    }
}

/// The operator a text names.
pub fn operator_from(raw: &str) -> (operator: Option<Operator>)
    ensures
        operator == operator_named(raw@),
{
    if same_text(raw, "in") {
        Some(Operator::In)
    } else if same_text(raw, "not_in") {
        Some(Operator::NotIn)
    } else if same_text(raw, "contains") {
        Some(Operator::Contains)
    } else if same_text(raw, "not_contains") {
        Some(Operator::NotContains)
    } else if same_text(raw, "starts_with") {
        Some(Operator::StartsWith)
    } else if same_text(raw, "ends_with") {
        Some(Operator::EndsWith)
    } else if same_text(raw, "greater_than") {
        Some(Operator::GreaterThan)
    } else if same_text(raw, "greater_than_or_equal") {
        Some(Operator::GreaterThanOrEqual)
    } else if same_text(raw, "less_than") {
        Some(Operator::LessThan)
    } else if same_text(raw, "less_than_or_equal") {
        Some(Operator::LessThanOrEqual)
    } else if same_text(raw, "matches") {
        Some(Operator::Matches)
    } else if same_text(raw, "not_matches") {
        Some(Operator::NotMatches)
    } else if same_text(raw, "semver_equal") {
        Some(Operator::SemverEqual)
    } else if same_text(raw, "semver_greater_than") {
        Some(Operator::SemverGreaterThan)
    } else if same_text(raw, "semver_less_than") {
        Some(Operator::SemverLessThan)
    } else if same_text(raw, "exists") {
        Some(Operator::Exists)
    } else if same_text(raw, "not_exists") {
        Some(Operator::NotExists)
    } else {
        None
    }
}

/// What is written for an operator is read back as that operator, and every text
/// that is read is what is written for it.
pub proof fn operators_round_trip(operator: Operator, raw: Seq<char>)
    ensures
        operator_named(operator.name()) == Some(operator),
        operator_named(raw) matches Some(read) ==> read.name() == raw,
{
    reveal_strlit("in");
    reveal_strlit("not_in");
    reveal_strlit("contains");
    reveal_strlit("not_contains");
    reveal_strlit("starts_with");
    reveal_strlit("ends_with");
    reveal_strlit("greater_than");
    reveal_strlit("greater_than_or_equal");
    reveal_strlit("less_than");
    reveal_strlit("less_than_or_equal");
    reveal_strlit("matches");
    reveal_strlit("not_matches");
    reveal_strlit("semver_equal");
    reveal_strlit("semver_greater_than");
    reveal_strlit("semver_less_than");
    reveal_strlit("exists");
    reveal_strlit("not_exists");
    assert("in"@.len() == 2 && "in"@[0] == 'i');
    assert("not_in"@.len() == 6 && "not_in"@[0] == 'n');
    assert("contains"@.len() == 8 && "contains"@[0] == 'c');
    assert("not_contains"@.len() == 12 && "not_contains"@[0] == 'n');
    assert("starts_with"@.len() == 11 && "starts_with"@[0] == 's');
    assert("ends_with"@.len() == 9 && "ends_with"@[0] == 'e');
    assert("greater_than"@.len() == 12 && "greater_than"@[0] == 'g');
    assert("greater_than_or_equal"@.len() == 21 && "greater_than_or_equal"@[0] == 'g');
    assert("less_than"@.len() == 9 && "less_than"@[0] == 'l');
    assert("less_than_or_equal"@.len() == 18 && "less_than_or_equal"@[0] == 'l');
    assert("matches"@.len() == 7 && "matches"@[0] == 'm');
    assert("not_matches"@.len() == 11 && "not_matches"@[0] == 'n');
    assert("semver_equal"@.len() == 12 && "semver_equal"@[0] == 's');
    assert("semver_greater_than"@.len() == 19 && "semver_greater_than"@[0] == 's');
    assert("semver_less_than"@.len() == 16 && "semver_less_than"@[0] == 's');
    assert("exists"@.len() == 6 && "exists"@[0] == 'e');
    assert("not_exists"@.len() == 10 && "not_exists"@[0] == 'n');
}

// ---------------------------------------------------------------------- values

/// Whether a reader of numbers gives an outcome for a text.
pub open spec fn reads<F: Fn(&str) -> Option<u64>>(
    number: F,
    text: Seq<char>,
    outcome: Option<u64>,
) -> bool {
    exists|t: &str| t@ == text && #[trigger] number.ensures((t,), outcome)
}

/// What an entry of a list of values means once it is known whether it is a
/// number: the number, or the text itself.
pub open spec fn entry_value(entry: Seq<char>, number: Option<u64>) -> AttributeModel {
    match number {
        Some(bits) => AttributeModel::Number(Number { bits }),
        None => AttributeModel::Text(entry),
    }
}

/// Whether a value is what an entry means to a reader of numbers.
pub open spec fn means<F: Fn(&str) -> Option<u64>>(
    value: AttributeModel,
    entry: Seq<char>,
    number: F,
) -> bool {
    exists|outcome: Option<u64>| #[trigger]
        reads(number, entry, outcome) && value == entry_value(entry, outcome)
}

/// The values in a comma-separated list, where `number` says which texts are
/// numbers, and which.
pub fn parse_values<F: Fn(&str) -> Option<u64>>(raw: &str, number: F) -> (values: Vec<
    AttributeValue,
>)
    requires
        forall|t: &str| number.requires((t,)),
    ensures
        values@.len() == entries_of(split_on(raw@, ',', ',')).len(),
        forall|i: int|
            0 <= i < values@.len() ==> means(
                (#[trigger] values@[i])@,
                entries_of(split_on(raw@, ',', ','))[i],
                number,
            ),
{
    let pieces = entries(raw, ',', ',');
    let ghost all = entries_of(split_on(raw@, ',', ','));
    let mut values: Vec<AttributeValue> = Vec::new();
    for i in 0..pieces.len()
        invariant
            all == texts(pieces@),
            forall|t: &str| number.requires((t,)),
            values.len() == i,
            forall|j: int| 0 <= j < i ==> means((#[trigger] values@[j])@, all[j], number),
    {
        let piece = pieces[i].as_str();
        let outcome: Option<u64> = number(piece);
        assert(all[i as int] == piece@);
        assert(reads(number, all[i as int], outcome));
        values.push(
            match outcome {
                Some(bits) => AttributeValue::Number(Number { bits }),
                None => AttributeValue::Text(piece.to_owned()),
            },
        );
        assert(values@[i as int]@ == entry_value(all[i as int], outcome));
    }
    values
}

/// The texts of those values that have one.
pub open spec fn with_text(values: Seq<Option<String>>) -> Seq<Seq<char>>
    decreases values.len(),
{
    if values.len() == 0 {
        Seq::empty()
    } else {
        match values.last() {
            Some(text) => with_text(values.drop_last()).push(text@),
            None => with_text(values.drop_last()),
        }
    }
}

/// A list of values as it is edited: those that have a text, comma-separated.
pub fn values_text(values: &Vec<Option<String>>) -> (text: String)
    ensures
        text@ == joined(with_text(values@), ", "@),
{
    let mut shown: Vec<String> = Vec::new();
    assert(texts(shown@) =~= with_text(values@.take(0)));
    for i in 0..values.len()
        invariant
            texts(shown@) == with_text(values@.take(i as int)),
    {
        let ghost earlier = shown@;
        assert(values@.take(i + 1).drop_last() =~= values@.take(i as int));
        if let Some(text) = &values[i] {
            shown.push(text.clone());
            assert(texts(shown@) =~= texts(earlier).push(text@));
        }
    }
    assert(values@.take(values.len() as int) =~= values@);
    join(&shown, ", ")
}

// ----------------------------------------------------------------------- edits

/// A change to one condition.
#[derive(Debug)]
pub enum ConditionEdit {
    Attribute(String),
    /// The operator by its wire name; an unknown one changes nothing.
    Operator(String),
    Values(Vec<AttributeValue>),
}

/// A condition after a change.
pub open spec fn edited(condition: ConditionModel, edit: ConditionEdit) -> ConditionModel {
    match edit {
        ConditionEdit::Attribute(attribute) => ConditionModel { attribute: attribute@, ..condition },
        ConditionEdit::Operator(raw) => match operator_named(raw@) {
            Some(operator) => ConditionModel { operator, ..condition },
            None => condition,
        },
        ConditionEdit::Values(values) => ConditionModel {
            values: value_models(values@),
            ..condition
        },
    }
}

/// A list of conditions after a change to one of them; a position that is not
/// there changes nothing.
pub open spec fn conditions_edited(
    conditions: Seq<ConditionModel>,
    position: int,
    edit: ConditionEdit,
) -> Seq<ConditionModel> {
    if 0 <= position < conditions.len() {
        conditions.update(position, edited(conditions[position], edit))
    } else {
        conditions
    }
}

/// Changes one condition of a list.
pub fn edit_condition(conditions: &mut Vec<Condition>, position: usize, edit: ConditionEdit)
    ensures
        condition_models(final(conditions)@) == conditions_edited(
            condition_models(old(conditions)@),
            position as int,
            edit,
        ),
        final(conditions)@.len() == old(conditions)@.len(),
        forall|i: int|
            0 <= i < old(conditions)@.len() && i != position ==> #[trigger] final(conditions)@[i]
                == old(conditions)@[i],
        position < old(conditions)@.len() ==> {
            let before = old(conditions)@[position as int];
            let after = final(conditions)@[position as int];
            match edit {
                ConditionEdit::Attribute(attribute) => {
                    &&& after.attribute@ == attribute@
                    &&& after.operator == before.operator
                    &&& after.values == before.values
                },
                ConditionEdit::Operator(raw) => {
                    &&& after.attribute == before.attribute
                    &&& after.operator == (match operator_named(raw@) {
                        Some(operator) => operator,
                        None => before.operator,
                    })
                    &&& after.values == before.values
                },
                ConditionEdit::Values(values) => {
                    &&& after.attribute == before.attribute
                    &&& after.operator == before.operator
                    &&& after.values == values
                },
            }
        },
{
    if position >= conditions.len() {
        return;
    }
    let ghost before = condition_models(conditions@);
    let ghost change = edit;
    let condition = &mut conditions[position];
    match edit {
        ConditionEdit::Attribute(attribute) => {
            condition.attribute = attribute;
        },
        ConditionEdit::Operator(raw) => {
            if let Some(operator) = operator_from(raw.as_str()) {
                condition.operator = operator;
            }
        },
        ConditionEdit::Values(values) => {
            condition.values = values;
        },
    }
    assert(condition_models(conditions@) =~= conditions_edited(before, position as int, change));
}

/// Adds the condition a new one starts out as.
pub fn add_condition(conditions: &mut Vec<Condition>)
    ensures
        condition_models(final(conditions)@) == condition_models(old(conditions)@).push(
            is_text("country"@, "ES"@),
        ),
{
    let ghost before = condition_models(conditions@);
    conditions.push(Condition::is_text("country", "ES"));
    assert(condition_models(conditions@) =~= before.push(is_text("country"@, "ES"@)));
}

/// Removes a condition.
pub fn remove_condition(conditions: &mut Vec<Condition>, position: usize)
    requires
        position < old(conditions)@.len(),
    ensures
        condition_models(final(conditions)@) == condition_models(old(conditions)@).remove(
            position as int,
        ),
{
    let ghost before = condition_models(conditions@);
    conditions.remove(position);
    assert(condition_models(conditions@) =~= before.remove(position as int));
}

/// The description of a rule as typed: nothing where it is blank.
pub open spec fn described(text: Seq<char>) -> Option<Seq<char>> {
    if trimmed(text).len() == 0 {
        None
    } else {
        Some(trimmed(text))
    }
}

/// The description of a rule as typed.
pub fn description_from(text: &str) -> (description: Option<String>)
    ensures
        match description {
            Some(d) => described(text@) == Some(d@),
            None => described(text@) is None,
        },
{
    let core = trim(text);
    if core.as_str().unicode_len() == 0 {
        None
    } else {
        Some(core)
    }
}

/// The word in front of a condition.
pub fn joiner(position: usize) -> (word: &'static str)
    ensures
        word@ == (if position == 0 {
            "If"@
        } else {
            "And"@
        }),
{
    if position == 0 {
        "If"
    } else {
        "And"
    }
}

/// A change to one condition touches one part of that condition and no other, and
/// a position that is not there changes nothing.
pub proof fn an_edit_touches_one_part(
    conditions: Seq<ConditionModel>,
    position: int,
    edit: ConditionEdit,
)
    ensures
        ({
            let after = conditions_edited(conditions, position, edit);
            &&& after.len() == conditions.len()
            &&& forall|i: int|
                0 <= i < conditions.len() && i != position ==> #[trigger] after[i] == conditions[i]
            &&& 0 <= position < conditions.len() ==> match edit {
                ConditionEdit::Attribute(attribute) => {
                    &&& after[position].attribute == attribute@
                    &&& after[position].operator == conditions[position].operator
                    &&& after[position].values == conditions[position].values
                },
                ConditionEdit::Operator(raw) => {
                    &&& after[position].attribute == conditions[position].attribute
                    &&& after[position].values == conditions[position].values
                    &&& operator_named(raw@) matches Some(operator) ==> after[position].operator
                        == operator
                    &&& operator_named(raw@) is None ==> after[position].operator
                        == conditions[position].operator
                },
                ConditionEdit::Values(values) => {
                    &&& after[position].attribute == conditions[position].attribute
                    &&& after[position].operator == conditions[position].operator
                    &&& after[position].values.len() == values@.len()
                    &&& forall|v: int|
                        0 <= v < values@.len() ==> (#[trigger] after[position].values[v])
                            == values@[v]@
                },
            }
        }),
{
}

/// An entry of a list of values is the number it is read as, and otherwise the
/// text itself.
pub proof fn an_entry_is_a_number_or_itself<F: Fn(&str) -> Option<u64>>(
    value: AttributeModel,
    entry: Seq<char>,
    number: F,
)
    requires
        means(value, entry, number),
    ensures
        match value {
            AttributeModel::Number(n) => exists|t: &str|
                t@ == entry && #[trigger] number.ensures((t,), Some(n.bits)),
            AttributeModel::Text(text) => text == entry && exists|t: &str|
                t@ == entry && #[trigger] number.ensures((t,), None),
            AttributeModel::Bool(_) => false,
        },
{
    let outcome = choose|outcome: Option<u64>| #[trigger]
        reads(number, entry, outcome) && value == entry_value(entry, outcome);
    let t = choose|t: &str| t@ == entry && #[trigger] number.ensures((t,), outcome);
    match value {
        AttributeModel::Number(n) => {
            assert(outcome == Some(n.bits));
            assert(number.ensures((t,), Some(n.bits)));
        },
        _ => {
            assert(number.ensures((t,), None));
        },
    }
}

/// The values that are shown are those that have a text, in order.
pub proof fn values_with_a_text_are_shown(values: Seq<Option<String>>)
    ensures
        with_text(values) == values.filter(|v: Option<String>| v is Some).map_values(
            |v: Option<String>| v->0@,
        ),
    decreases values.len(),
{
    reveal(Seq::filter);
    let kept = |v: Option<String>| v is Some;
    let text = |v: Option<String>| v->0@;
    if values.len() > 0 {
        let shorter = values.drop_last();
        values_with_a_text_are_shown(shorter);
        if values.last() is Some {
            assert(values.filter(kept) == shorter.filter(kept).push(values.last()));
            assert(values.filter(kept).map_values(text) =~= shorter.filter(kept).map_values(
                text,
            ).push(values.last()->0@));
        }
    } else {
        assert(with_text(values) =~= values.filter(kept).map_values(text));
    }
}

/// A description is what was typed without the blanks around it, and none where
/// nothing but blanks was typed.
pub proof fn a_blank_description_is_none(text: Seq<char>)
    ensures
        described(text) is None <==> trimmed(text).len() == 0,
        described(text) matches Some(kept) ==> kept == trimmed(text),
{
}

} // verus!
