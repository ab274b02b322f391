//! Percentage rollouts: how shares are dealt out and edited.

use vstd::prelude::*;

use crate::domain::{
    a_total_is_the_sum, first_with_key, first_with_key_is_first, position_of, total_weight,
    Variant, WeightedVariant, TOTAL_WEIGHT,
};
use crate::text::{decimal, decimal_text};

verus! {

/// The share of the variant at `at` when all of `count` get the same; what the
/// division leaves over goes to the first.
pub open spec fn even_share(count: int, at: int) -> int {
    let share = TOTAL_WEIGHT as int / count;
    if at == 0 {
        share + (TOTAL_WEIGHT - share * count)
    } else {
        share
    }
}

/// Whether weights are an even split among variants.
pub open spec fn splits_evenly(weights: Seq<WeightedVariant>, variants: Seq<Variant>) -> bool {
    &&& weights.len() == variants.len()
    &&& forall|i: int|
        0 <= i < variants.len() ==> {
            &&& (#[trigger] weights[i]).variant@ == variants[i].key@
            &&& weights[i].weight == even_share(variants.len() as int, i)
        }
}

/// An even split among variants.
pub fn even_split(variants: &Vec<Variant>) -> (weights: Vec<WeightedVariant>)
    requires
        variants.len() <= u32::MAX,
    ensures
        splits_evenly(weights@, variants@),
{
    let mut weights: Vec<WeightedVariant> = Vec::new();
    if variants.len() == 0 {
        return weights;
    }
    let count: u32 = variants.len() as u32;
    let share: u32 = TOTAL_WEIGHT / count;
    assert(0 <= share * count <= TOTAL_WEIGHT && share == TOTAL_WEIGHT as int / count as int)
        by (nonlinear_arith)
        requires
            count > 0,
            share == TOTAL_WEIGHT / count,
    ;
    let rest: u32 = TOTAL_WEIGHT - share * count;
    assert(share + rest <= TOTAL_WEIGHT) by (nonlinear_arith)
        requires
            count > 0,
            rest == TOTAL_WEIGHT - share * count,
    ;
    for i in 0..variants.len()
        invariant
            variants.len() == count,
            count > 0,
            share == TOTAL_WEIGHT as int / count as int,
            rest == TOTAL_WEIGHT - share * count,
            share + rest <= TOTAL_WEIGHT,
            weights.len() == i,
            forall|j: int|
                0 <= j < i ==> {
                    &&& (#[trigger] weights@[j]).variant@ == variants@[j].key@
                    &&& weights@[j].weight == even_share(variants@.len() as int, j)
                },
    {
        let weight: u32 = if i == 0 {
            share + rest
        } else {
            share
        };
        weights.push(WeightedVariant { variant: variants[i].key.clone(), weight });
    }
    weights
}

spec fn times(count: int, share: int) -> int {
    count * share
}

proof fn even_shares_add_up(weights: Seq<WeightedVariant>, variants: Seq<Variant>, to: int)
    requires
        splits_evenly(weights, variants),
        0 < to <= weights.len(),
    ensures
        total_weight(weights.take(to)) == even_share(variants.len() as int, 0) + times(
            to - 1,
            TOTAL_WEIGHT as int / variants.len() as int,
        ),
    decreases to,
{
    let shorter = weights.take(to).drop_last();
    assert(shorter =~= weights.take(to - 1));
    assert(weights.take(to).last() == weights[to - 1]);
    let share = TOTAL_WEIGHT as int / variants.len() as int;
    if to > 1 {
        even_shares_add_up(weights, variants, to - 1);
        assert(times(to - 1, share) == times(to - 2, share) + share) by {
            assert((to - 1) * share == (to - 2) * share + share) by (nonlinear_arith);
        }
    } else {
        assert(total_weight(shorter) == 0);
        assert(times(to - 1, share) == 0) by {
            assert((to - 1) * share == 0) by (nonlinear_arith)
                requires
                    to == 1,
            ;
        }
    }
}

/// An even split among any variants at all hands out everything.
pub proof fn even_split_is_whole(weights: Seq<WeightedVariant>, variants: Seq<Variant>)
    requires
        splits_evenly(weights, variants),
        variants.len() > 0,
    ensures
        total_weight(weights) == TOTAL_WEIGHT,
{
    even_shares_add_up(weights, variants, weights.len() as int);
    assert(weights.take(weights.len() as int) =~= weights);
    let count = variants.len() as int;
    let share = TOTAL_WEIGHT as int / count;
    assert(share + (TOTAL_WEIGHT - share * count) + times(count - 1, share) == TOTAL_WEIGHT) by {
        assert(share * count == (count - 1) * share + share) by (nonlinear_arith);
    }
}

/// What the shares of a rollout add up to.
pub fn shares_total(weights: &Vec<WeightedVariant>) -> (total: u64)
    requires
        weights.len() <= u32::MAX,
    ensures
        total == total_weight(weights@),
{
    let mut total: u64 = 0;
    for i in 0..weights.len()
        invariant
            weights.len() <= u32::MAX,
            total == total_weight(weights@.take(i as int)),
            total <= i * u32::MAX,
    {
        assert(weights@.take(i + 1).drop_last() =~= weights@.take(i as int));
        assert(i * u32::MAX + u32::MAX <= u64::MAX && (i + 1) * u32::MAX == i * u32::MAX + u32::MAX)
            by (nonlinear_arith)
            requires
                i < u32::MAX,
        ;
        total = total + weights[i].weight as u64;
    }
    assert(weights@.take(weights.len() as int) =~= weights@);
    total
}

/// Whether the shares of a rollout add up to the whole.
pub fn is_balanced(weights: &Vec<WeightedVariant>) -> (yes: bool)
    requires
        weights.len() <= u32::MAX,
    ensures
        yes == (total_weight(weights@) == TOTAL_WEIGHT),
{
    shares_total(weights) == TOTAL_WEIGHT as u64
}

/// Whether one slider says it all: with two variants, whatever the first does
/// not take, the second does.
pub fn has_slider(weights: &Vec<WeightedVariant>) -> (yes: bool)
    ensures
        yes == (weights@.len() == 2),
{
    weights.len() == 2
}

/// A share, cut off at the whole.
pub open spec fn capped(weight: u32) -> u32 {
    if weight > TOTAL_WEIGHT {
        TOTAL_WEIGHT
    } else {
        weight
    }
}

/// Moves the slider: the first of two variants takes a share, the second the
/// rest. Anything but two variants stays as it is.
pub fn set_split(weights: &mut Vec<WeightedVariant>, first: u32)
    ensures
        final(weights)@.len() == old(weights)@.len(),
        forall|i: int|
            0 <= i < old(weights)@.len() ==> (#[trigger] final(weights)@[i]).variant
                == old(weights)@[i].variant,
        old(weights)@.len() == 2 ==> final(weights)@[0].weight + final(weights)@[1].weight
            == 100_000 && (first <= 100_000 ==> final(weights)@[0].weight == first),
        if old(weights)@.len() == 2 {
            final(weights)@ == seq![
                WeightedVariant { variant: old(weights)@[0].variant, weight: capped(first) },
                WeightedVariant {
                    variant: old(weights)@[1].variant,
                    weight: (TOTAL_WEIGHT - capped(first)) as u32,
                },
            ]
        } else {
            final(weights)@ == old(weights)@
        },
{
    if weights.len() == 2 {
        let ghost before = weights@;
        let share: u32 = if first > TOTAL_WEIGHT {
            TOTAL_WEIGHT
        } else {
            first
        };
        let one = &mut weights[0];
        one.weight = share;
        let other = &mut weights[1];
        other.weight = TOTAL_WEIGHT - share;
        assert(weights@ =~= seq![
            WeightedVariant { variant: before[0].variant, weight: capped(first) },
            WeightedVariant {
                variant: before[1].variant,
                weight: (TOTAL_WEIGHT - capped(first)) as u32,
            },
        ]);
    }
}

/// Wherever the slider goes, the two shares add up to the whole.
pub proof fn slider_keeps_the_whole(a: WeightedVariant, b: WeightedVariant, first: u32)
    requires
        a.weight == capped(first),
        b.weight == TOTAL_WEIGHT - capped(first),
    ensures
        total_weight(seq![a, b]) == TOTAL_WEIGHT,
{
    reveal_with_fuel(total_weight, 3);
    assert(seq![a, b].drop_last() =~= seq![a]);
    assert(seq![a].drop_last() =~= Seq::empty());
}

/// Sets the share of one variant; a position that is not there changes nothing.
pub fn set_share(weights: &mut Vec<WeightedVariant>, index: usize, weight: u32)
    ensures
        index < old(weights)@.len() && weight <= 100_000
            ==> final(weights)@[index as int].weight == weight,
        if index < old(weights)@.len() {
            final(weights)@ == old(weights)@.update(
                index as int,
                WeightedVariant {
                    variant: old(weights)@[index as int].variant,
                    weight: capped(weight),
                },
            )
        } else {
            final(weights)@ == old(weights)@
        },
{
    if index < weights.len() {
        let entry = &mut weights[index];
        entry.weight = if weight > TOTAL_WEIGHT {
            TOTAL_WEIGHT
        } else {
            weight
        };
    }
}

/// The colour of a variant, by its place in the flag's definition; one that is
/// not in it gets the first colour.
pub open spec fn color_of(variants: Seq<Variant>, key: Seq<char>) -> int {
    match first_with_key(variants, key) {
        Some(at) => at % 4,
        None => 0,
    }
}

/// How a variant's part of a bar is styled.
pub fn part_class(variants: &Vec<Variant>, key: &str) -> (class: String)
    ensures
        class@ == "dist__part dist__part--"@ + decimal(color_of(variants@, key@) as nat),
{
    let index: usize = match position_of(variants, key) {
        Some(at) => at,
        None => 0,
    };
    let mut class: String = "dist__part dist__part--".to_owned();
    class.append(decimal_text((index % 4) as u64).as_str());
    class
}

/// An even split is even: every variant has a share, in order, all but the first
/// have the same, the first has less than one more each than they, and together
/// they have everything.
pub proof fn an_even_split_is_even(weights: Seq<WeightedVariant>, variants: Seq<Variant>)
    requires
        splits_evenly(weights, variants),
    ensures
        weights.len() == variants.len(),
        forall|i: int|
            0 <= i < variants.len() ==> (#[trigger] weights[i]).variant@ == variants[i].key@,
        forall|i: int, j: int|
            0 < i < j < weights.len() ==> (#[trigger] weights[i]).weight == (
            #[trigger] weights[j]).weight,
        weights.len() > 1 ==> 0 <= weights[0].weight - weights[1].weight < weights.len(),
        weights.len() > 0 ==> weights.map_values(
            |w: WeightedVariant| w.weight as int,
        ).fold_left(0, |sum: int, n: int| sum + n) == 100_000,
{
    let count = variants.len() as int;
    if count > 0 {
        even_split_is_whole(weights, variants);
        a_total_is_the_sum(weights);
        let share = TOTAL_WEIGHT as int / count;
        assert(0 <= TOTAL_WEIGHT - share * count < count) by (nonlinear_arith)
            requires
                count > 0,
                share == TOTAL_WEIGHT as int / count,
        ;
        assert(weights[0].weight == even_share(count, 0));
        if count > 1 {
            assert(weights[1].weight == even_share(count, 1));
        }
    }
}

/// A share is cut off at the whole and is otherwise what was asked for.
pub proof fn a_share_is_cut_off_at_the_whole(weight: u32)
    ensures
        capped(weight) <= 100_000,
        weight <= 100_000 ==> capped(weight) == weight,
        weight > 100_000 ==> capped(weight) == 100_000,
{
}

/// A variant is coloured by the first place its key has in the flag's definition,
/// and one that has no place like the first.
pub proof fn colours_follow_the_definition(variants: Seq<Variant>, key: Seq<char>, at: int)
    requires
        0 <= at < variants.len(),
        variants[at].key@ == key,
        forall|i: int| 0 <= i < at ==> (#[trigger] variants[i]).key@ != key,
    ensures
        color_of(variants, key) == at % 4,
{
    first_with_key_is_first(variants, key);
}

/// A key that the definition lacks is coloured like the first variant.
pub proof fn an_unknown_variant_has_the_first_colour(variants: Seq<Variant>, key: Seq<char>)
    requires
        forall|i: int| 0 <= i < variants.len() ==> (#[trigger] variants[i]).key@ != key,
    ensures
        color_of(variants, key) == 0,
{
    first_with_key_is_first(variants, key);
}

} // verus!
