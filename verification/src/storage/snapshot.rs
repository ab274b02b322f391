//! Building an in-memory [`EnvironmentSnapshot`] from the database.

use vstd::prelude::*;

use crate::domain::{EnvironmentSnapshot, Flag};
use crate::ids::Uuid;
use crate::storage::error::{
    decoded, decoded_or_malformed, found_or_missing, FoundExt, StorageError,
};
use crate::storage::flags::ConfiguredFlagRow;
use crate::storage::rows::{gather, gathers};
use crate::time::Timestamp;

verus! {

/// What a snapshot reads of an environment.
#[derive(Debug)]
pub struct EnvironmentRow {
    pub key: String,
    pub salt: String,
}

/// The flag the engine evaluates, or why there is none. The variants are read
/// first, then the fallthrough, then the rules.
pub open spec fn configured_flag(row: ConfiguredFlagRow) -> Result<Flag, StorageError> {
    match decoded_or_malformed(row.variants, "flag variants") {
        Ok(variants) => match decoded_or_malformed(row.fallthrough, "flag fallthrough") {
            Ok(fallthrough) => match decoded_or_malformed(row.rules, "flag rules") {
                Ok(rules) => Ok(
                    Flag {
                        key: row.key,
                        variants,
                        enabled: row.enabled,
                        off_variant: row.off_variant,
                        fallthrough,
                        rules,
                        version: row.version,
                    },
                ),
                Err(error) => Err(error),
            },
            Err(error) => Err(error),
        },
        Err(error) => Err(error),
    }
}

fn build_configured(row: ConfiguredFlagRow) -> (flag: Result<Flag, StorageError>)
    ensures
        flag == configured_flag(row),
{
    match decoded(row.variants, "flag variants") {
        Ok(variants) => match decoded(row.fallthrough, "flag fallthrough") {
            Ok(fallthrough) => match decoded(row.rules, "flag rules") {
                Ok(rules) => Ok(
                    Flag {
                        key: row.key,
                        variants,
                        enabled: row.enabled,
                        off_variant: row.off_variant,
                        fallthrough,
                        rules,
                        version: row.version,
                    },
                ),
                Err(error) => Err(error),
            },
            Err(error) => Err(error),
        },
        Err(error) => Err(error),
    }
}

/// Everything one environment needs to answer evaluations, taken at `now`.
///
/// The result is self-contained: once it is in memory, evaluation does not touch
/// the database again. A flag that does not decode fails the whole load, since
/// leaving it out would look like a flag that does not exist.
pub fn load(
    environment_id: Uuid,
    environment: Option<EnvironmentRow>,
    rows: Vec<ConfiguredFlagRow>,
    now: Timestamp,
) -> (snapshot: Result<EnvironmentSnapshot, StorageError>)
    ensures
        match environment {
            None => snapshot == Err::<EnvironmentSnapshot, StorageError>(
                StorageError::NotFound { entity: "environment" },
            ),
            Some(environment) => {
                let flags = rows@.map_values(|row: ConfiguredFlagRow| configured_flag(row));
                match snapshot {
                    Ok(snapshot) => {
                        &&& snapshot.environment_id == environment_id
                        &&& snapshot.environment_key == environment.key
                        &&& snapshot.salt == environment.salt
                        &&& snapshot.generated_at == now
                        &&& gathers(Ok(snapshot.flags), flags)
                        &&& snapshot.flags@.len() == rows@.len()
                        &&& forall|i: int|
                            0 <= i < rows@.len() ==> {
                                &&& (#[trigger] snapshot.flags@[i]).key@ == rows@[i].key@
                                &&& rows@[i].variants is Ok && snapshot.flags@[i].variants@
                                    == rows@[i].variants->Ok_0@
                                &&& snapshot.flags@[i].enabled == rows@[i].enabled
                                &&& snapshot.flags@[i].off_variant@ == rows@[i].off_variant@
                                &&& rows@[i].fallthrough is Ok && snapshot.flags@[i].fallthrough
                                    == rows@[i].fallthrough->Ok_0
                                &&& rows@[i].rules is Ok && snapshot.flags@[i].rules@
                                    == rows@[i].rules->Ok_0@
                                &&& snapshot.flags@[i].version == rows@[i].version
                            }
                    },
                    Err(error) => gathers(Err::<Vec<Flag>, StorageError>(error), flags),
                }
            },
        },
{
    let environment = match environment.or_not_found("environment") {
        Ok(environment) => environment,
        Err(error) => {
            return Err(error);
        },
    };
    let ghost all = rows@;
    let mut built: Vec<Result<Flag, StorageError>> = Vec::new();
    for row in it: rows
        invariant
            it.seq() == all,
            built@ == all.take(it.index()).map_values(
                |row: ConfiguredFlagRow| configured_flag(row),
            ),
    {
        built.push(build_configured(row));
    }
    assert(all.take(all.len() as int) =~= all);
    match gather(built) {
        Ok(flags) => {
            proof {
                assert forall|i: int| 0 <= i < all.len() implies {
                    &&& (#[trigger] flags@[i]).key@ == all[i].key@
                    &&& all[i].variants is Ok && flags@[i].variants@ == all[i].variants->Ok_0@
                    &&& flags@[i].enabled == all[i].enabled
                    &&& flags@[i].off_variant@ == all[i].off_variant@
                    &&& all[i].fallthrough is Ok && flags@[i].fallthrough
                        == all[i].fallthrough->Ok_0
                    &&& all[i].rules is Ok && flags@[i].rules@ == all[i].rules->Ok_0@
                    &&& flags@[i].version == all[i].version
                } by {
                    assert(built@[i] == configured_flag(all[i]));
                    a_served_flag_carries_its_row(all[i]);
                }
            }
            Ok(
                EnvironmentSnapshot {
                    environment_id,
                    environment_key: environment.key,
                    salt: environment.salt,
                    flags,
                    generated_at: now,
                },
            )
        },
        Err(error) => Err(error),
    }
}

/// The environment behind a project key and an environment key.
pub fn resolve_environment(row: Option<Uuid>) -> (found: Result<Uuid, StorageError>)
    ensures
        found == found_or_missing(row, "environment"),
{
    row.or_not_found("environment")
}

/// The flag that is served is the row's, field by field: it is on exactly where
/// the row says so. A row of which a document does not decode is malformed, with
/// the first decoder's error.
pub proof fn a_served_flag_carries_its_row(row: ConfiguredFlagRow)
    ensures
        match (row.variants, row.fallthrough, row.rules) {
            (Ok(variants), Ok(fallthrough), Ok(rules)) => {
                &&& configured_flag(row) matches Ok(flag)
                &&& flag.key@ == row.key@
                &&& flag.variants@ == variants@
                &&& flag.enabled == row.enabled
                &&& flag.off_variant@ == row.off_variant@
                &&& flag.fallthrough == fallthrough
                &&& flag.rules@ == rules@
                &&& flag.version == row.version
            },
            (Err(error), _, _) => configured_flag(row) == Err::<Flag, StorageError>(
                StorageError::Malformed { entity: "flag variants", source: error },
            ),
            (_, Err(error), _) => configured_flag(row) == Err::<Flag, StorageError>(
                StorageError::Malformed { entity: "flag fallthrough", source: error },
            ),
            (_, _, Err(error)) => configured_flag(row) == Err::<Flag, StorageError>(
                StorageError::Malformed { entity: "flag rules", source: error },
            ),
        },
{
}

} // verus!
