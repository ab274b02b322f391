//! Lists of rows that may or may not decode, and partial updates.

use vstd::prelude::*;

use crate::storage::error::StorageError;
use crate::text::maybe_str;

verus! {

/// Whether the item at `at` is the first that failed.
pub open spec fn first_failure<T>(items: Seq<Result<T, StorageError>>, at: int) -> bool {
    &&& 0 <= at < items.len()
    &&& items[at] is Err
    &&& forall|i: int| 0 <= i < at ==> (#[trigger] items[i]) is Ok
}

/// All values where every item has one, and otherwise the first error.
pub open spec fn gathers<T>(
    outcome: Result<Vec<T>, StorageError>,
    items: Seq<Result<T, StorageError>>,
) -> bool {
    match outcome {
        Ok(values) => {
            &&& values.len() == items.len()
            &&& forall|i: int| 0 <= i < items.len() ==> #[trigger] items[i] == Ok::<T, StorageError>(values@[i])
        },
        Err(error) => exists|at: int|
            #[trigger] first_failure(items, at) && items[at] == Err::<T, StorageError>(error),
    }
}

/// All values where every item has one, and otherwise the first error.
pub fn gather<T>(items: Vec<Result<T, StorageError>>) -> (outcome: Result<Vec<T>, StorageError>)
    ensures
        gathers(outcome, items@),
{
    let ghost all = items@;
    let mut values: Vec<T> = Vec::new();
    for item in it: items
        invariant
            it.seq() == all,
            values.len() == it.index(),
            forall|i: int| 0 <= i < it.index() ==> #[trigger] all[i] == Ok::<T, StorageError>(values@[i]),
    {
        match item {
            Ok(value) => values.push(value),
            Err(error) => {
                assert(first_failure(all, it.index()));
                return Err(error);
            },
        }
    }
    Ok(values)
}

/// A change to a column that may hold nothing: whether to write it, and what.
///
/// Leaving a description alone and clearing it have to be told apart, so the
/// value travels with a flag that says whether it counts.
pub fn description_patch<'a>(description: Option<Option<&'a str>>) -> (patch: (bool, Option<&'a str>))
    ensures
        patch.0 == (description is Some),
        maybe_str(patch.1) == (match description {
            Some(value) => maybe_str(value),
            None => None,
        }),
{
    match description {
        None => (false, None),
        Some(value) => (true, value),
    }
}

/// Gathering is all or nothing: every value in its place where every item has one,
/// and otherwise the error of the first item that has none.
pub proof fn gathering_is_all_or_nothing<T>(
    outcome: Result<Vec<T>, StorageError>,
    items: Seq<Result<T, StorageError>>,
)
    requires
        gathers(outcome, items),
    ensures
        outcome is Ok <==> forall|i: int| 0 <= i < items.len() ==> (#[trigger] items[i]) is Ok,
        outcome matches Ok(values) ==> values@.len() == items.len() && forall|i: int|
            0 <= i < items.len() ==> (#[trigger] items[i])->Ok_0 == values@[i],
        outcome matches Err(error) ==> exists|at: int|
            {
                &&& 0 <= at < items.len()
                &&& (#[trigger] items[at]) is Err
                &&& items[at]->Err_0 == error
                &&& forall|i: int| 0 <= i < at ==> (#[trigger] items[i]) is Ok
            },
{
    if let Err(error) = outcome {
        let at = choose|at: int|
            #[trigger] first_failure(items, at) && items[at] == Err::<T, StorageError>(error);
        assert(items[at] is Err);
    }
}

} // verus!
