//! The preview: what the configuration being edited would serve.
//!
//! The engine itself runs outside. This decides what it is asked, and what is
//! made of its answers.

use vstd::prelude::*;

use crate::domain::{
    first_with_key, first_with_key_is_first, position_of, AttributeModel, AttributeValue, Number,
    Variant,
};
use crate::text::{
    cut, cut_on, cutting_is_at_the_first, decimal, decimal_text, same_text, split, split_on,
    texts, trim, trimmed,
};
use crate::web::pages::conditions::reads;

verus! {

/// How many subjects the simulation runs over: enough for stable shares, few
/// enough to feel instant.
pub const SIMULATED_SUBJECTS: u32 = 2_000;

/// What stands in for the environment's salt, which never leaves the server.
/// Which side one subject lands on depends on it; the shares do not.
pub const PREVIEW_SALT: &'static str = "preview";

// ------------------------------------------------------------------ attributes

/// What a typed value means once it is known whether it is a number.
pub open spec fn typed_value(text: Seq<char>, number: Option<u64>) -> AttributeModel {
    match number {
        Some(bits) => AttributeModel::Number(Number { bits }),
        None => if text == "true"@ {
            AttributeModel::Bool(true)
        } else if text == "false"@ {
            AttributeModel::Bool(false)
        } else {
            AttributeModel::Text(text)
        },
    }
}

/// Whether a value is what a typed text means to a reader of numbers.
pub open spec fn stands_for<F: Fn(&str) -> Option<u64>>(
    value: AttributeModel,
    text: Seq<char>,
    number: F,
) -> bool {
    exists|outcome: Option<u64>| #[trigger]
        reads(number, text, outcome) && value == typed_value(text, outcome)
}

/// The name and the value text of a line, without space around them; nothing
/// where the line has no `=`, or no name in front of it.
pub open spec fn assignment(line: Seq<char>) -> Option<(Seq<char>, Seq<char>)> {
    match cut_on(line, '=') {
        Some((name, value)) => if trimmed(name).len() == 0 {
            None
        } else {
            Some((trimmed(name), trimmed(value)))
        },
        None => None,
    }
}

/// The assignments among some lines, in order.
pub open spec fn assignments(lines: Seq<Seq<char>>) -> Seq<(Seq<char>, Seq<char>)>
    decreases lines.len(),
{
    if lines.len() == 0 {
        Seq::empty()
    } else {
        match assignment(lines.last()) {
            Some(pair) => assignments(lines.drop_last()).push(pair),
            None => assignments(lines.drop_last()),
        }
    }
}

fn read_assignment(line: &str) -> (pair: Option<(String, String)>)
    ensures
        match pair {
            Some((name, value)) => assignment(line@) == Some((name@, value@)),
            None => assignment(line@) is None,
        },
{
    match cut(line, '=') {
        Some((front, back)) => {
            let name = trim(front.as_str());
            if name.as_str().unicode_len() == 0 {
                None
            } else {
                Some((name, trim(back.as_str())))
            }
        },
        None => None,
    }
}

/// The attributes of a context, one `name=value` per line. Numbers stay numbers,
/// so that comparisons behave the way whoever typed them expects; `number` says
/// which texts are numbers, and which.
pub fn attributes_in<F: Fn(&str) -> Option<u64>>(text: &str, number: F) -> (attributes: Vec<
    (String, AttributeValue),
>)
    requires
        forall|t: &str| number.requires((t,)),
    ensures
        ({
            let pairs = assignments(split_on(text@, '\n', '\n'));
            &&& attributes@.len() == pairs.len()
            &&& forall|i: int|
                0 <= i < pairs.len() ==> {
                    &&& (#[trigger] attributes@[i]).0@ == pairs[i].0
                    &&& stands_for(attributes@[i].1@, pairs[i].1, number)
                }
        }),
{
    let lines = split(text, '\n', '\n');
    let ghost all = split_on(text@, '\n', '\n');
    let mut attributes: Vec<(String, AttributeValue)> = Vec::new();
    for i in 0..lines.len()
        invariant
            all == texts(lines@),
            forall|t: &str| number.requires((t,)),
            attributes@.len() == assignments(all.take(i as int)).len(),
            forall|j: int|
                0 <= j < attributes@.len() ==> {
                    &&& (#[trigger] attributes@[j]).0@ == assignments(all.take(i as int))[j].0
                    &&& stands_for(
                        attributes@[j].1@,
                        assignments(all.take(i as int))[j].1,
                        number,
                    )
                },
    {
        assert(all.take(i + 1).drop_last() =~= all.take(i as int));
        assert(all.take(i + 1).last() == lines@[i as int]@);
        if let Some((name, value)) = read_assignment(lines[i].as_str()) {
            let outcome: Option<u64> = number(value.as_str());
            assert(reads(number, value@, outcome));
            let read = match outcome {
                Some(bits) => AttributeValue::Number(Number { bits }),
                None => if same_text(value.as_str(), "true") {
                    AttributeValue::Bool(true)
                } else if same_text(value.as_str(), "false") {
                    AttributeValue::Bool(false)
                } else {
                    AttributeValue::Text(value.clone())
                },
            };
            assert(read@ == typed_value(value@, outcome));
            attributes.push((name, read));
        }
    }
    assert(all.take(lines.len() as int) =~= all);
    attributes
}

// ------------------------------------------------------------------ simulation

/// The subject at a position of the simulation.
pub fn simulated_subject(at: u32) -> (key: String)
    ensures
        key@ == "sim-"@ + decimal(at as nat),
{
    let mut key: String = "sim-".to_owned();
    key.append(decimal_text(at as u64).as_str());
    key
}

/// What an outcome counts as: the variant served, or an error.
pub open spec fn counts_as(outcome: Option<String>) -> Seq<char> {
    match outcome {
        Some(variant) => variant@,
        None => "error"@,
    }
}

/// What some outcomes count as.
pub open spec fn labels_of(outcomes: Seq<Option<String>>) -> Seq<Seq<char>> {
    outcomes.map_values(|o: Option<String>| counts_as(o))
}

/// How often a label occurs.
pub open spec fn occurrences(labels: Seq<Seq<char>>, label: Seq<char>) -> int
    decreases labels.len(),
{
    if labels.len() == 0 {
        0
    } else {
        occurrences(labels.drop_last(), label) + if labels.last() == label {
            1int
        } else {
            0
        }
    }
}

/// The labels, each once, in the order they first occur.
pub open spec fn first_seen(labels: Seq<Seq<char>>) -> Seq<Seq<char>>
    decreases labels.len(),
{
    if labels.len() == 0 {
        Seq::empty()
    } else {
        let seen = first_seen(labels.drop_last());
        if seen.contains(labels.last()) {
            seen
        } else {
            seen.push(labels.last())
        }
    }
}

/// What is first seen are the labels, each once.
pub proof fn first_seen_is_each_once(labels: Seq<Seq<char>>)
    ensures
        first_seen(labels).no_duplicates(),
        forall|l: Seq<char>| first_seen(labels).contains(l) <==> labels.contains(l),
    decreases labels.len(),
{
    if labels.len() > 0 {
        let shorter = labels.drop_last();
        first_seen_is_each_once(shorter);
        let seen = first_seen(shorter);
        let all = first_seen(labels);
        assert forall|l: Seq<char>| all.contains(l) <==> labels.contains(l) by {
            assert(seen.contains(l) <==> shorter.contains(l));
            if all.contains(l) {
                if seen.contains(l) {
                    let i = choose|i: int| 0 <= i < shorter.len() && shorter[i] == l;
                    assert(labels[i] == l);
                } else {
                    assert(labels[labels.len() - 1] == l);
                }
            }
            if labels.contains(l) {
                let i = choose|i: int| 0 <= i < labels.len() && labels[i] == l;
                if i < shorter.len() {
                    assert(shorter[i] == l);
                    let s = choose|s: int| 0 <= s < seen.len() && seen[s] == l;
                    assert(all[s] == l);
                } else if !seen.contains(l) {
                    assert(all[seen.len() as int] == l);
                }
            }
        }
    }
}

/// Where a label stands in the flag's definition; one that is not in it stands
/// behind all.
pub open spec fn rank(variants: Seq<Variant>, label: Seq<char>) -> int {
    match first_with_key(variants, label) {
        Some(at) => at,
        None => variants.len() as int,
    }
}

/// Whether one label is shown before another: by the flag's definition, and
/// otherwise by which came first.
pub open spec fn shown_before(
    variants: Seq<Variant>,
    seen: Seq<Seq<char>>,
    a: Seq<char>,
    b: Seq<char>,
) -> bool {
    ||| rank(variants, a) < rank(variants, b)
    ||| rank(variants, a) == rank(variants, b) && seen.index_of(a) < seen.index_of(b)
}

/// Whether a tally is what some labels come to: each label once, with how often
/// it occurs, in the order they are shown.
pub open spec fn tallies(
    tally: Seq<(String, u32)>,
    labels: Seq<Seq<char>>,
    variants: Seq<Variant>,
) -> bool {
    &&& forall|l: Seq<char>|
        labels.contains(l) ==> exists|i: int| 0 <= i < tally.len() && (#[trigger] tally[i]).0@ == l
    &&& forall|i: int|
        0 <= i < tally.len() ==> {
            &&& labels.contains((#[trigger] tally[i]).0@)
            &&& tally[i].1 == occurrences(labels, tally[i].0@)
        }
    &&& forall|i: int, j: int|
        0 <= i < j < tally.len() ==> shown_before(
            variants,
            first_seen(labels),
            (#[trigger] tally[i]).0@,
            (#[trigger] tally[j]).0@,
        )
}

proof fn occurrences_are_few(labels: Seq<Seq<char>>, label: Seq<char>)
    ensures
        0 <= occurrences(labels, label) <= labels.len(),
        labels.contains(label) ==> occurrences(labels, label) > 0,
        !labels.contains(label) ==> occurrences(labels, label) == 0,
    decreases labels.len(),
{
    if labels.len() > 0 {
        let shorter = labels.drop_last();
        occurrences_are_few(shorter, label);
        if shorter.contains(label) {
            let i = choose|i: int| 0 <= i < shorter.len() && shorter[i] == label;
            assert(labels[i] == label);
        }
        if labels.contains(label) && labels.last() != label {
            let i = choose|i: int| 0 <= i < labels.len() && labels[i] == label;
            assert(shorter[i] == label);
        }
        if labels.last() == label {
            assert(labels[labels.len() - 1] == label);
        }
    }
}

/// A tally in the order the labels were first seen.
pub open spec fn counted(tally: Seq<(String, u32)>, labels: Seq<Seq<char>>) -> bool {
    &&& tally.len() == first_seen(labels).len()
    &&& forall|i: int|
        0 <= i < tally.len() ==> {
            &&& (#[trigger] tally[i]).0@ == first_seen(labels)[i]
            &&& tally[i].1 == occurrences(labels, tally[i].0@)
        }
}

fn count(outcomes: &Vec<Option<String>>) -> (tally: Vec<(String, u32)>)
    requires
        outcomes.len() <= u32::MAX,
    ensures
        counted(tally@, labels_of(outcomes@)),
{
    let mut tally: Vec<(String, u32)> = Vec::new();
    let ghost all = labels_of(outcomes@);
    for i in 0..outcomes.len()
        invariant
            outcomes.len() <= u32::MAX,
            all == labels_of(outcomes@),
            counted(tally@, all.take(i as int)),
    {
        let ghost shorter = all.take(i as int);
        let ghost longer = all.take(i + 1);
        let ghost earlier = tally@;
        assert(longer.drop_last() =~= shorter);
        let label: String = match &outcomes[i] {
            Some(variant) => variant.clone(),
            None => "error".to_owned(),
        };
        assert(longer.last() == label@);
        let mut at: usize = 0;
        while at < tally.len() && !same_text(tally[at].0.as_str(), label.as_str())
            invariant
                at <= tally.len(),
                tally@ == earlier,
                forall|t: int| 0 <= t < at ==> (#[trigger] tally@[t]).0@ != label@,
            decreases tally.len() - at,
        {
            at = at + 1;
        }
        proof {
            first_seen_is_each_once(shorter);
            occurrences_are_few(shorter, label@);
        }
        if at < tally.len() {
            assert(first_seen(shorter)[at as int] == label@);
            let entry = (tally[at].0.clone(), tally[at].1 + 1);
            tally.set(at, entry);
        } else {
            assert forall|s: int| 0 <= s < first_seen(shorter).len() implies first_seen(shorter)[s]
                != label@ by {
                assert(earlier[s].0@ == first_seen(shorter)[s]);
            }
            tally.push((label, 1));
        }
        assert forall|t: int| 0 <= t < tally.len() implies {
            &&& (#[trigger] tally@[t]).0@ == first_seen(longer)[t]
            &&& tally@[t].1 == occurrences(longer, tally@[t].0@)
        } by {
            if t < earlier.len() {
                assert(earlier[t].0@ == first_seen(shorter)[t]);
                if t != at && at < earlier.len() {
                    assert(earlier[at as int].0@ == first_seen(shorter)[at as int]);
                }
            }
        }
    }
    assert(all.take(outcomes.len() as int) =~= all);
    tally
}

/// The simulation's outcomes, counted, in the order the flag defines its
/// variants, so that this bar and the editor's read the same way.
pub fn tally(outcomes: &Vec<Option<String>>, variants: &Vec<Variant>) -> (shown: Vec<(String, u32)>)
    requires
        outcomes.len() <= u32::MAX,
    ensures
        tallies(shown@, labels_of(outcomes@), variants@),
{
    let ghost labels = labels_of(outcomes@);
    let ghost seen = first_seen(labels);
    let found = count(outcomes);
    let mut shown: Vec<(String, u32)> = Vec::new();
    proof {
        first_seen_is_each_once(labels);
    }
    assert forall|l: Seq<char>| 0 <= #[trigger] rank(variants@, l) <= variants@.len() by {
        first_with_key_is_first(variants@, l);
    }
    // Every label that is a variant, by its place in the definition.
    for v in 0..variants.len()
        invariant
            counted(found@, labels),
            seen == first_seen(labels),
            seen.no_duplicates(),
            forall|i: int|
                0 <= i < shown@.len() ==> {
                    &&& seen.contains((#[trigger] shown@[i]).0@)
                    &&& shown@[i].1 == occurrences(labels, shown@[i].0@)
                    &&& rank(variants@, shown@[i].0@) < v
                },
            forall|i: int, j: int|
                0 <= i < j < shown@.len() ==> rank(variants@, (#[trigger] shown@[i]).0@) < rank(
                    variants@,
                    (#[trigger] shown@[j]).0@,
                ),
            forall|s: int|
                0 <= s < seen.len() && rank(variants@, #[trigger] seen[s]) < v ==> exists|i: int|
                    0 <= i < shown@.len() && (#[trigger] shown@[i]).0@ == seen[s],
    {
        let ghost earlier = shown@;
        let key = variants[v].key.as_str();
        let mut at: usize = 0;
        while at < found.len() && !same_text(found[at].0.as_str(), key)
            invariant
                at <= found.len(),
                key@ == variants@[v as int].key@,
                forall|t: int| 0 <= t < at ==> (#[trigger] found@[t]).0@ != key@,
            decreases found.len() - at,
        {
            at = at + 1;
        }
        let first: bool = match position_of(variants, key) {
            Some(p) => p == v,
            None => false,
        };
        if at < found.len() && first {
            shown.push((found[at].0.clone(), found[at].1));
            assert(shown@.last().0@ == seen[at as int]);
            assert(rank(variants@, seen[at as int]) == v);
        }
        assert forall|s: int| 0 <= s < seen.len() && rank(variants@, #[trigger] seen[s]) < v
            + 1 implies exists|i: int|
            0 <= i < shown@.len() && (#[trigger] shown@[i]).0@ == seen[s] by {
            if rank(variants@, seen[s]) < v {
                let i = choose|i: int|
                    0 <= i < earlier.len() && (#[trigger] earlier[i]).0@ == seen[s];
                assert(shown@[i] == earlier[i]);
            } else {
                first_with_key_is_first(variants@, seen[s]);
                assert(found@[s].0@ == seen[s]);
                assert(seen[at as int] == found@[at as int].0@);
                assert(shown@[earlier.len() as int].0@ == seen[s]);
            }
        }
    }
    // Then the others, as they came.
    for f in 0..found.len()
        invariant
            counted(found@, labels),
            seen == first_seen(labels),
            seen.no_duplicates(),
            forall|i: int|
                0 <= i < shown@.len() ==> {
                    &&& seen.contains((#[trigger] shown@[i]).0@)
                    &&& shown@[i].1 == occurrences(labels, shown@[i].0@)
                    &&& rank(variants@, shown@[i].0@) < variants@.len() || seen.index_of(
                        shown@[i].0@,
                    ) < f
                },
            forall|i: int, j: int|
                0 <= i < j < shown@.len() ==> shown_before(
                    variants@,
                    seen,
                    (#[trigger] shown@[i]).0@,
                    (#[trigger] shown@[j]).0@,
                ),
            forall|s: int|
                0 <= s < seen.len() && (rank(variants@, #[trigger] seen[s]) < variants@.len() || s
                    < f) ==> exists|i: int|
                    0 <= i < shown@.len() && (#[trigger] shown@[i]).0@ == seen[s],
    {
        let ghost earlier = shown@;
        let name = found[f].0.as_str();
        assert(name@ == seen[f as int]);
        assert(seen.index_of(name@) == f);
        proof {
            first_with_key_is_first(variants@, name@);
        }
        if position_of(variants, name).is_none() {
            shown.push((found[f].0.clone(), found[f].1));
            assert(shown@.last().0@ == name@);
            assert forall|i: int| 0 <= i < earlier.len() implies shown_before(
                variants@,
                seen,
                (#[trigger] earlier[i]).0@,
                name@,
            ) by {
                first_with_key_is_first(variants@, earlier[i].0@);
            }
        }
        assert forall|s: int|
            0 <= s < seen.len() && (rank(variants@, #[trigger] seen[s]) < variants@.len() || s < f
                + 1) implies exists|i: int|
            0 <= i < shown@.len() && (#[trigger] shown@[i]).0@ == seen[s] by {
            if rank(variants@, seen[s]) < variants@.len() || s < f {
                let i = choose|i: int|
                    0 <= i < earlier.len() && (#[trigger] earlier[i]).0@ == seen[s];
                assert(shown@[i] == earlier[i]);
            } else {
                assert(shown@[earlier.len() as int].0@ == seen[s]);
            }
        }
    }
    assert forall|l: Seq<char>| labels.contains(l) implies exists|i: int|
        0 <= i < shown@.len() && (#[trigger] shown@[i]).0@ == l by {
        assert(seen.contains(l));
        let s = choose|s: int| 0 <= s < seen.len() && seen[s] == l;
        assert(s < found.len());
    }
    shown
}

/// What the counts of a tally add up to.
pub open spec fn tally_total(tally: Seq<(String, u32)>) -> int
    decreases tally.len(),
{
    if tally.len() == 0 {
        0
    } else {
        tally_total(tally.drop_last()) + tally.last().1
    }
}

spec fn occurring(labels: Seq<Seq<char>>, names: Seq<Seq<char>>) -> int
    decreases names.len(),
{
    if names.len() == 0 {
        0
    } else {
        occurring(labels, names.drop_last()) + occurrences(labels, names.last())
    }
}

proof fn nothing_occurs(names: Seq<Seq<char>>)
    ensures
        occurring(Seq::empty(), names) == 0,
    decreases names.len(),
{
    if names.len() > 0 {
        nothing_occurs(names.drop_last());
    }
}

proof fn one_more_occurs(labels: Seq<Seq<char>>, names: Seq<Seq<char>>)
    requires
        labels.len() > 0,
        names.no_duplicates(),
    ensures
        occurring(labels, names) == occurring(labels.drop_last(), names) + if names.contains(
            labels.last(),
        ) {
            1int
        } else {
            0
        },
    decreases names.len(),
{
    if names.len() > 0 {
        let fewer = names.drop_last();
        one_more_occurs(labels, fewer);
        if names.last() == labels.last() {
            assert(names[names.len() - 1] == labels.last());
            assert(!fewer.contains(labels.last())) by {
                if fewer.contains(labels.last()) {
                    let i = choose|i: int| 0 <= i < fewer.len() && fewer[i] == labels.last();
                    assert(names[i] == names[names.len() - 1]);
                }
            }
        } else if names.contains(labels.last()) {
            let i = choose|i: int| 0 <= i < names.len() && names[i] == labels.last();
            assert(fewer[i] == labels.last());
        } else if fewer.contains(labels.last()) {
            let i = choose|i: int| 0 <= i < fewer.len() && fewer[i] == labels.last();
            assert(names[i] == labels.last());
        }
    }
}

proof fn all_occur(labels: Seq<Seq<char>>, names: Seq<Seq<char>>)
    requires
        names.no_duplicates(),
        forall|l: Seq<char>| labels.contains(l) ==> #[trigger] names.contains(l),
    ensures
        occurring(labels, names) == labels.len(),
    decreases labels.len(),
{
    if labels.len() == 0 {
        assert(labels =~= Seq::empty());
        nothing_occurs(names);
    } else {
        one_more_occurs(labels, names);
        assert(labels.contains(labels.last())) by {
            assert(labels[labels.len() - 1] == labels.last());
        }
        assert forall|l: Seq<char>| labels.drop_last().contains(l) implies #[trigger] names.contains(
            l,
        ) by {
            let i = choose|i: int| 0 <= i < labels.drop_last().len() && labels.drop_last()[i] == l;
            assert(labels[i] == l);
        }
        all_occur(labels.drop_last(), names);
    }
}

proof fn total_is_occurring(tally: Seq<(String, u32)>, labels: Seq<Seq<char>>)
    requires
        forall|i: int|
            0 <= i < tally.len() ==> (#[trigger] tally[i]).1 == occurrences(labels, tally[i].0@),
    ensures
        tally_total(tally) == occurring(labels, tally.map_values(|t: (String, u32)| t.0@)),
    decreases tally.len(),
{
    if tally.len() > 0 {
        let names = tally.map_values(|t: (String, u32)| t.0@);
        total_is_occurring(tally.drop_last(), labels);
        assert(names.drop_last() =~= tally.drop_last().map_values(|t: (String, u32)| t.0@));
        assert(tally[tally.len() - 1] == tally.last());
    }
}

/// The simulation loses nobody: the counts add up to the number of outcomes.
pub proof fn everyone_is_counted(
    tally: Seq<(String, u32)>,
    labels: Seq<Seq<char>>,
    variants: Seq<Variant>,
)
    requires
        tallies(tally, labels, variants),
    ensures
        tally_total(tally) == labels.len(),
{
    let names = tally.map_values(|t: (String, u32)| t.0@);
    assert forall|i: int, j: int| 0 <= i < j < names.len() implies names[i] != names[j] by {
        assert(shown_before(variants, first_seen(labels), tally[i].0@, tally[j].0@));
    }
    assert forall|l: Seq<char>| labels.contains(l) implies #[trigger] names.contains(l) by {
        let i = choose|i: int| 0 <= i < tally.len() && (#[trigger] tally[i]).0@ == l;
        assert(names[i] == l);
    }
    total_is_occurring(tally, labels);
    all_occur(labels, names);
}

// -------------------------------------------------------------------- verdicts

/// Why the engine served what it served.
#[derive(Debug)]
pub enum Reason {
    Off,
    TargetMatch { index: usize },
    Fallthrough,
    FlagNotFound,
    Error { message: String },
}

/// Why the engine served what it served, in words.
pub open spec fn reason_words(reason: Reason) -> Seq<char> {
    match reason {
        Reason::Off => "flag is off"@,
        Reason::TargetMatch { index } => "matched rule "@ + decimal((index + 1) as nat),
        Reason::Fallthrough => "no rule matched"@,
        Reason::FlagNotFound => "flag not found"@,
        Reason::Error { message } => message@,
    }
}

/// How the words are coloured.
pub open spec fn reason_badge(reason: Reason) -> Seq<char> {
    match reason {
        Reason::Off => "badge badge--off"@,
        Reason::TargetMatch { .. } => "badge badge--accent"@,
        Reason::Fallthrough => "badge badge--info"@,
        Reason::FlagNotFound => "badge badge--danger"@,
        Reason::Error { .. } => "badge badge--danger"@,
    }
}

/// The badge and the words for a reason. Rules count from one.
pub fn verdict(reason: &Reason) -> (shown: (&'static str, String))
    requires
        reason matches Reason::TargetMatch { index } ==> index < u64::MAX,
    ensures
        shown.0@ == reason_badge(*reason),
        shown.1@ == reason_words(*reason),
        match reason {
            Reason::Off => shown.0@ == "badge badge--off"@ && shown.1@ == "flag is off"@,
            Reason::TargetMatch { index } => shown.0@ == "badge badge--accent"@ && shown.1@
                == "matched rule "@ + decimal((index + 1) as nat),
            Reason::Fallthrough => shown.0@ == "badge badge--info"@ && shown.1@
                == "no rule matched"@,
            Reason::FlagNotFound => shown.0@ == "badge badge--danger"@ && shown.1@
                == "flag not found"@,
            Reason::Error { message } => shown.0@ == "badge badge--danger"@ && shown.1@
                == message@,
        },
{
    match reason {
        Reason::Off => ("badge badge--off", "flag is off".to_owned()),
        Reason::TargetMatch { index } => {
            let mut words: String = "matched rule ".to_owned();
            words.append(decimal_text(*index as u64 + 1).as_str());
            ("badge badge--accent", words)
        },
        Reason::Fallthrough => ("badge badge--info", "no rule matched".to_owned()),
        Reason::FlagNotFound => ("badge badge--danger", "flag not found".to_owned()),
        Reason::Error { message } => ("badge badge--danger", message.clone()),
    }
}

/// What is shown as served: the variant, or a dash.
pub fn served(variant: &Option<String>) -> (text: String)
    ensures
        text@ == (match variant {
            Some(variant) => variant@,
            None => "\u{2014}"@,
        }),
{
    match variant {
        Some(variant) => variant.clone(),
        None => "\u{2014}".to_owned(),
    }
}

// ------------------------------------------------------------------ the meaning

/// A typed value is the number it is read as; where it is none, `true` and `false`
/// are what they say, and anything else is the text itself.
pub proof fn a_typed_value_is_what_it_says<F: Fn(&str) -> Option<u64>>(
    value: AttributeModel,
    text: Seq<char>,
    number: F,
)
    requires
        stands_for(value, text, number),
    ensures
        match value {
            AttributeModel::Number(n) => exists|t: &str|
                t@ == text && #[trigger] number.ensures((t,), Some(n.bits)),
            AttributeModel::Bool(b) => text == (if b {
                "true"@
            } else {
                "false"@
            }),
            AttributeModel::Text(kept) => kept == text && text != "true"@ && text != "false"@,
        },
        !(value is Number) ==> exists|t: &str| t@ == text && #[trigger] number.ensures((t,), None),
{
    let outcome = choose|outcome: Option<u64>| #[trigger]
        reads(number, text, outcome) && value == typed_value(text, outcome);
    let t = choose|t: &str| t@ == text && #[trigger] number.ensures((t,), outcome);
    match value {
        AttributeModel::Number(n) => {
            assert(outcome == Some(n.bits));
            assert(number.ensures((t,), Some(n.bits)));
        },
        _ => {
            assert(number.ensures((t,), None));
        },
    }
}

/// A line assigns what stands behind its first `=` to what stands before it, both
/// without the space around them; a line without `=`, or without a name, assigns
/// nothing.
pub proof fn a_line_assigns_a_value_to_a_name(line: Seq<char>)
    ensures
        match assignment(line) {
            Some((name, value)) => name.len() > 0 && exists|front: Seq<char>, back: Seq<char>|
                {
                    &&& line == #[trigger] (front + seq!['='] + back)
                    &&& !front.contains('=')
                    &&& name == trimmed(front)
                    &&& value == trimmed(back)
                },
            None => !line.contains('=') || exists|front: Seq<char>, back: Seq<char>|
                {
                    &&& line == #[trigger] (front + seq!['='] + back)
                    &&& !front.contains('=')
                    &&& trimmed(front).len() == 0
                },
        },
{
    cutting_is_at_the_first(line, '=');
}

/// The assignments of some lines are those of the lines that have one, in order.
pub proof fn lines_without_an_assignment_are_skipped(lines: Seq<Seq<char>>)
    ensures
        assignments(lines) == lines.map_values(|l: Seq<char>| assignment(l)).filter(
            |a: Option<(Seq<char>, Seq<char>)>| a is Some,
        ).map_values(|a: Option<(Seq<char>, Seq<char>)>| a->0),
    decreases lines.len(),
{
    reveal(Seq::filter);
    let read = lines.map_values(|l: Seq<char>| assignment(l));
    let kept = |a: Option<(Seq<char>, Seq<char>)>| a is Some;
    let pair = |a: Option<(Seq<char>, Seq<char>)>| a->0;
    if lines.len() > 0 {
        let shorter = lines.drop_last();
        lines_without_an_assignment_are_skipped(shorter);
        let before = shorter.map_values(|l: Seq<char>| assignment(l));
        assert(read.drop_last() =~= before);
        if assignment(lines.last()) is Some {
            assert(read.filter(kept) == before.filter(kept).push(read.last()));
            assert(read.filter(kept).map_values(pair) =~= before.filter(kept).map_values(
                pair,
            ).push(pair(read.last())));
        }
    } else {
        assert(assignments(lines) =~= read.filter(kept).map_values(pair));
    }
}

proof fn occurrences_are_counted(outcomes: Seq<Option<String>>, name: Seq<char>)
    ensures
        occurrences(labels_of(outcomes), name) == outcomes.filter(
            |o: Option<String>|
                match o {
                    Some(variant) => variant@ == name,
                    None => name == "error"@,
                },
        ).len(),
    decreases outcomes.len(),
{
    reveal(Seq::filter);
    if outcomes.len() > 0 {
        occurrences_are_counted(outcomes.drop_last(), name);
        assert(labels_of(outcomes).drop_last() =~= labels_of(outcomes.drop_last()));
    }
}

/// What is counted under a name is the number of outcomes that served the variant
/// of that name, and under `error` also of those that served none.
pub proof fn a_name_counts_its_own_outcomes(
    tally: Seq<(String, u32)>,
    outcomes: Seq<Option<String>>,
    variants: Seq<Variant>,
    i: int,
)
    requires
        tallies(tally, labels_of(outcomes), variants),
        0 <= i < tally.len(),
    ensures
        ({
            let name = tally[i].0@;
            tally[i].1 == outcomes.filter(
                |o: Option<String>|
                    match o {
                        Some(variant) => variant@ == name,
                        None => name == "error"@,
                    },
            ).len()
        }),
{
    occurrences_are_counted(outcomes, tally[i].0@);
}

/// A tally counts every outcome under the variant that was served, and those
/// without one as errors: each name is there once, and none is left out.
pub proof fn a_tally_counts_every_outcome(
    tally: Seq<(String, u32)>,
    outcomes: Seq<Option<String>>,
    variants: Seq<Variant>,
)
    requires
        tallies(tally, labels_of(outcomes), variants),
    ensures
        forall|o: int|
            0 <= o < outcomes.len() ==> exists|i: int|
                0 <= i < tally.len() && (#[trigger] tally[i]).0@ == (match #[trigger] outcomes[o] {
                    Some(variant) => variant@,
                    None => "error"@,
                }),
        forall|i: int|
            0 <= i < tally.len() ==> exists|o: int|
                0 <= o < outcomes.len() && (#[trigger] tally[i]).0@ == (match #[trigger] outcomes[o] {
                    Some(variant) => variant@,
                    None => "error"@,
                }),
        forall|i: int, j: int|
            0 <= i < j < tally.len() ==> (#[trigger] tally[i]).0@ != (#[trigger] tally[j]).0@,
        tally.map_values(|t: (String, u32)| t.1 as int).fold_left(0, |sum: int, n: int| sum + n)
            == outcomes.len(),
{
    let labels = labels_of(outcomes);
    assert forall|o: int| 0 <= o < outcomes.len() implies exists|i: int|
        0 <= i < tally.len() && (#[trigger] tally[i]).0@ == (match #[trigger] outcomes[o] {
            Some(variant) => variant@,
            None => "error"@,
        }) by {
        assert(labels[o] == counts_as(outcomes[o]));
        assert(labels.contains(labels[o]));
    }
    assert forall|i: int| 0 <= i < tally.len() implies exists|o: int|
        0 <= o < outcomes.len() && (#[trigger] tally[i]).0@ == (match #[trigger] outcomes[o] {
            Some(variant) => variant@,
            None => "error"@,
        }) by {
        assert(labels.contains(tally[i].0@));
        let o = choose|o: int| 0 <= o < labels.len() && labels[o] == tally[i].0@;
        assert(labels[o] == counts_as(outcomes[o]));
    }
    assert forall|i: int, j: int| 0 <= i < j < tally.len() implies (#[trigger] tally[i]).0@ != (
    #[trigger] tally[j]).0@ by {
        assert(shown_before(variants, first_seen(labels), tally[i].0@, tally[j].0@));
    }
    everyone_is_counted(tally, labels, variants);
    totals_are_sums(tally);
}

proof fn totals_are_sums(tally: Seq<(String, u32)>)
    ensures
        tally_total(tally) == tally.map_values(|t: (String, u32)| t.1 as int).fold_left(
            0,
            |sum: int, n: int| sum + n,
        ),
    decreases tally.len(),
{
    let counts = tally.map_values(|t: (String, u32)| t.1 as int);
    if tally.len() > 0 {
        totals_are_sums(tally.drop_last());
        assert(counts.drop_last() =~= tally.drop_last().map_values(|t: (String, u32)| t.1 as int));
    }
}

/// A tally is in the order of the flag's definition: of two names that the flag
/// defines, the one defined first comes first, and names it does not define come
/// behind all that it does.
pub proof fn a_tally_follows_the_definition(
    tally: Seq<(String, u32)>,
    outcomes: Seq<Option<String>>,
    variants: Seq<Variant>,
    i: int,
    j: int,
)
    requires
        tallies(tally, labels_of(outcomes), variants),
        0 <= i < j < tally.len(),
    ensures
        (exists|q: int| 0 <= q < variants.len() && (#[trigger] variants[q]).key@ == tally[j].0@)
            ==> exists|p: int|
            {
                &&& 0 <= p < variants.len()
                &&& (#[trigger] variants[p]).key@ == tally[i].0@
                &&& forall|q: int| 0 <= q <= p ==> (#[trigger] variants[q]).key@ != tally[j].0@
            },
{
    let a = tally[i].0@;
    let b = tally[j].0@;
    let seen = first_seen(labels_of(outcomes));
    first_with_key_is_first(variants, a);
    first_with_key_is_first(variants, b);
    assert(shown_before(variants, seen, a, b));
    if exists|q: int| 0 <= q < variants.len() && (#[trigger] variants[q]).key@ == b {
        let q = first_with_key(variants, b)->0;
        assert(rank(variants, b) == q);
        if rank(variants, a) == rank(variants, b) {
            assert(variants[q].key@ == a);
            assert(a == b);
        }
        let p = first_with_key(variants, a)->0;
        assert(variants[p].key@ == a);
    }
}

/// Of two names that the flag does not define, the one that was served first comes
/// first.
pub proof fn undefined_names_come_as_they_were_served(
    tally: Seq<(String, u32)>,
    outcomes: Seq<Option<String>>,
    variants: Seq<Variant>,
    i: int,
    j: int,
)
    requires
        tallies(tally, labels_of(outcomes), variants),
        0 <= i < j < tally.len(),
        forall|v: int|
            0 <= v < variants.len() ==> (#[trigger] variants[v]).key@ != tally[i].0@
                && variants[v].key@ != tally[j].0@,
    ensures
        exists|o: int|
            {
                &&& 0 <= o < outcomes.len()
                &&& (match #[trigger] outcomes[o] {
                    Some(variant) => variant@,
                    None => "error"@,
                }) == tally[i].0@
                &&& forall|p: int|
                    0 <= p <= o ==> (match #[trigger] outcomes[p] {
                        Some(variant) => variant@,
                        None => "error"@,
                    }) != tally[j].0@
            },
{
    let labels = labels_of(outcomes);
    let seen = first_seen(labels);
    let a = tally[i].0@;
    let b = tally[j].0@;
    first_with_key_is_first(variants, a);
    first_with_key_is_first(variants, b);
    first_seen_is_each_once(labels);
    assert(shown_before(variants, seen, a, b));
    assert(labels.contains(a) && labels.contains(b));
    assert(seen.contains(a) && seen.contains(b));
    let s = seen.index_of(a);
    let t = seen.index_of(b);
    assert(seen[s] == a && seen[t] == b);
    labels_are_seen_in_order(labels, s, t);
    let o = choose|o: int|
        {
            &&& 0 <= o < labels.len()
            &&& #[trigger] labels[o] == seen[s]
            &&& forall|p: int| 0 <= p <= o ==> #[trigger] labels[p] != seen[t]
        };
    assert(labels[o] == counts_as(outcomes[o]));
    assert forall|p: int| 0 <= p <= o implies (match #[trigger] outcomes[p] {
        Some(variant) => variant@,
        None => "error"@,
    }) != b by {
        assert(labels[p] == counts_as(outcomes[p]));
    }
}

proof fn labels_are_seen_in_order(labels: Seq<Seq<char>>, s: int, t: int)
    requires
        0 <= s < t < first_seen(labels).len(),
    ensures
        exists|o: int|
            {
                &&& 0 <= o < labels.len()
                &&& #[trigger] labels[o] == first_seen(labels)[s]
                &&& forall|p: int| 0 <= p <= o ==> #[trigger] labels[p] != first_seen(labels)[t]
            },
    decreases labels.len(),
{
    let shorter = labels.drop_last();
    let before = first_seen(shorter);
    let all = first_seen(labels);
    assert forall|j: int| 0 <= j < shorter.len() implies #[trigger] labels[j] == shorter[j] by {}
    first_seen_is_each_once(shorter);
    if t < before.len() {
        labels_are_seen_in_order(shorter, s, t);
        let o = choose|o: int|
            {
                &&& 0 <= o < shorter.len()
                &&& #[trigger] shorter[o] == before[s]
                &&& forall|p: int| 0 <= p <= o ==> #[trigger] shorter[p] != before[t]
            };
        assert(labels[o] == all[s]);
        assert forall|p: int| 0 <= p <= o implies #[trigger] labels[p] != all[t] by {
            assert(shorter[p] != before[t]);
        }
    } else {
        assert(all[t] == labels.last());
        assert(!before.contains(all[t]));
        assert(before.contains(before[s]));
        assert(shorter.contains(before[s]));
        let o = choose|o: int| 0 <= o < shorter.len() && shorter[o] == before[s];
        assert(labels[o] == all[s]);
        assert forall|p: int| 0 <= p <= o implies #[trigger] labels[p] != all[t] by {
            if shorter[p] == all[t] {
                assert(shorter.contains(all[t]));
                assert(before.contains(all[t]));
            }
        }
    }
}

} // verus!
