//! Flag definitions and their per-environment configuration.

use vstd::prelude::*;

use crate::domain::{Distribution, Rule, Variant};
use crate::ids::{uuid_text, Uuid};
use crate::storage::error::{
    affected, decoded, decoded_or_malformed, reports_write, written, FoundExt,
    StorageError,
};
use crate::storage::models::{Flag, FlagConfig};
use crate::storage::rows::{gather, gathers};
use crate::time::Timestamp;

verus! {

/// A row of the flags table; the variants may not decode.
#[derive(Debug)]
pub struct FlagRow {
    pub id: Uuid,
    pub project_id: Uuid,
    pub key: String,
    pub name: String,
    pub description: Option<String>,
    pub variants: Result<Vec<Variant>, serde_json::Error>,
    pub archived: bool,
    pub created_at: Timestamp,
    pub updated_at: Timestamp,
}

/// A row of the configurations table; the two documents may not decode.
#[derive(Debug)]
pub struct ConfigRow {
    pub flag_id: Uuid,
    pub environment_id: Uuid,
    pub enabled: bool,
    pub off_variant: String,
    pub fallthrough: Result<Distribution, serde_json::Error>,
    pub rules: Result<Vec<Rule>, serde_json::Error>,
    pub version: i64,
    pub updated_at: Timestamp,
}

/// A configuration joined with the definition of its flag.
#[derive(Debug)]
pub struct ConfiguredFlagRow {
    pub key: String,
    pub variants: Result<Vec<Variant>, serde_json::Error>,
    pub enabled: bool,
    pub off_variant: String,
    pub fallthrough: Result<Distribution, serde_json::Error>,
    pub rules: Result<Vec<Rule>, serde_json::Error>,
    pub version: i64,
}

/// The flag in a row, or why there is none.
pub open spec fn flag_of(row: FlagRow) -> Result<Flag, StorageError> {
    match decoded_or_malformed(row.variants, "flag") {
        Ok(variants) => Ok(
            Flag {
                id: row.id,
                project_id: row.project_id,
                key: row.key,
                name: row.name,
                description: row.description,
                variants,
                archived: row.archived,
                created_at: row.created_at,
                updated_at: row.updated_at,
            },
        ),
        Err(error) => Err(error),
    }
}

/// The flag in a row, or why there is none.
pub fn build_flag(row: FlagRow) -> (flag: Result<Flag, StorageError>)
    ensures
        flag == flag_of(row),
{
    match decoded(row.variants, "flag") {
        Ok(variants) => Ok(
            Flag {
                id: row.id,
                project_id: row.project_id,
                key: row.key,
                name: row.name,
                description: row.description,
                variants,
                archived: row.archived,
                created_at: row.created_at,
                updated_at: row.updated_at,
            },
        ),
        Err(error) => Err(error),
    }
}

/// The configuration in a row, or why there is none. The fallthrough is read
/// before the rules.
pub open spec fn config_of(row: ConfigRow) -> Result<FlagConfig, StorageError> {
    match decoded_or_malformed(row.fallthrough, "flag configuration") {
        Ok(fallthrough) => match decoded_or_malformed(row.rules, "flag configuration") {
            Ok(rules) => Ok(
                FlagConfig {
                    flag_id: row.flag_id,
                    environment_id: row.environment_id,
                    enabled: row.enabled,
                    off_variant: row.off_variant,
                    fallthrough,
                    rules,
                    version: row.version,
                    updated_at: row.updated_at,
                },
            ),
            Err(error) => Err(error),
        },
        Err(error) => Err(error),
    }
}

/// The configuration in a row, or why there is none.
pub fn build_config(row: ConfigRow) -> (config: Result<FlagConfig, StorageError>)
    ensures
        config == config_of(row),
{
    match decoded(row.fallthrough, "flag configuration") {
        Ok(fallthrough) => match decoded(row.rules, "flag configuration") {
            Ok(rules) => Ok(
                FlagConfig {
                    flag_id: row.flag_id,
                    environment_id: row.environment_id,
                    enabled: row.enabled,
                    off_variant: row.off_variant,
                    fallthrough,
                    rules,
                    version: row.version,
                    updated_at: row.updated_at,
                },
            ),
            Err(error) => Err(error),
        },
        Err(error) => Err(error),
    }
}

/// The row of a new flag, or what the refusal to insert it means. The flag is
/// then seeded into every environment of its project, disabled: see
/// [`crate::storage::seeding`].
pub fn flag_inserted(inserted: Result<FlagRow, sqlx::Error>, key: &str) -> (row: Result<
    FlagRow,
    StorageError,
>)
    ensures
        match inserted {
            Ok(made) => row == Ok::<FlagRow, StorageError>(made),
            Err(error) => row matches Err(reported) && reports_write(
                reported,
                error,
                "flag",
                key@,
            ),
        },
{
    written(inserted, "flag", key)
}

/// The flag just created.
pub fn create_flag(row: FlagRow) -> (created: Result<Flag, StorageError>)
    ensures
        created == flag_of(row),
{
    build_flag(row)
}

/// The flags of a project, in the order of the rows. One that does not decode
/// fails the whole list.
pub fn list_flags(rows: Vec<FlagRow>) -> (flags: Result<Vec<Flag>, StorageError>)
    ensures
        gathers(flags, rows@.map_values(|row: FlagRow| flag_of(row))),
{
    let ghost all = rows@;
    let mut built: Vec<Result<Flag, StorageError>> = Vec::new();
    for row in it: rows
        invariant
            it.seq() == all,
            built@ == all.take(it.index()).map_values(|row: FlagRow| flag_of(row)),
    {
        built.push(build_flag(row));
    }
    assert(all.take(all.len() as int) =~= all);
    gather(built)
}

/// The flag a project has under a key.
pub fn find_flag(row: Option<FlagRow>) -> (found: Result<Flag, StorageError>)
    ensures
        found == (match row {
            Some(row) => flag_of(row),
            None => Err(StorageError::NotFound { entity: "flag" }),
        }),
{
    match row.or_not_found("flag") {
        Ok(row) => build_flag(row),
        Err(error) => Err(error),
    }
}

/// A flag after a partial update. A refused write is reported under the flag's
/// identifier.
pub fn update_flag(updated: Result<Option<FlagRow>, sqlx::Error>, flag_id: Uuid) -> (flag: Result<
    Flag,
    StorageError,
>)
    ensures
        match updated {
            Ok(Some(row)) => flag == flag_of(row),
            Ok(None) => flag == Err::<Flag, StorageError>(StorageError::NotFound { entity: "flag" }),
            Err(error) => flag matches Err(reported) && reports_write(
                reported,
                error,
                "flag",
                uuid_text(flag_id.bits),
            ),
        },
{
    match written(updated, "flag", flag_id.text().as_str()) {
        Ok(row) => find_flag(row),
        Err(error) => Err(error),
    }
}

/// Whether a flag was there to delete.
pub fn delete_flag(rows_affected: u64) -> (outcome: Result<(), StorageError>)
    ensures
        outcome == (if rows_affected == 0 {
            Err::<(), StorageError>(StorageError::NotFound { entity: "flag" })
        } else {
            Ok(())
        }),
{
    affected(rows_affected, "flag")
}

/// The configuration of a flag in one environment.
pub fn find_config(row: Option<ConfigRow>) -> (found: Result<FlagConfig, StorageError>)
    ensures
        found == (match row {
            Some(row) => config_of(row),
            None => Err(StorageError::NotFound { entity: "flag configuration" }),
        }),
{
    match row.or_not_found("flag configuration") {
        Ok(row) => build_config(row),
        Err(error) => Err(error),
    }
}

/// A configuration just written.
///
/// No row means that the version guard filtered the write out: somebody else
/// wrote first, and overwriting them silently is not acceptable.
pub fn upsert_config(
    upserted: Result<Option<ConfigRow>, sqlx::Error>,
    flag_id: Uuid,
    expected_version: Option<i64>,
) -> (config: Result<FlagConfig, StorageError>)
    ensures
        match upserted {
            Ok(Some(row)) => config == config_of(row),
            Ok(None) => config == Err::<FlagConfig, StorageError>(
                StorageError::VersionConflict {
                    entity: "flag configuration",
                    expected: match expected_version {
                        Some(expected) => expected,
                        None => 0,
                    },
                },
            ),
            Err(error) => config matches Err(reported) && reports_write(
                reported,
                error,
                "flag configuration",
                uuid_text(flag_id.bits),
            ),
        },
{
    match written(upserted, "flag configuration", flag_id.text().as_str()) {
        Ok(Some(row)) => build_config(row),
        Ok(None) => {
            let expected: i64 = match expected_version {
                Some(expected) => expected,
                None => 0,
            };
            Err(StorageError::VersionConflict { entity: "flag configuration", expected })
        },
        Err(error) => Err(error),
    }
}

/// A flag carries what its row holds, field by field; a row whose variants do not
/// decode is malformed, with the decoder's error.
pub proof fn a_flag_carries_its_row(row: FlagRow)
    ensures
        match row.variants {
            Ok(variants) => {
                &&& flag_of(row) matches Ok(flag)
                &&& flag.id == row.id
                &&& flag.project_id == row.project_id
                &&& flag.key@ == row.key@
                &&& flag.name@ == row.name@
                &&& flag.description == row.description
                &&& flag.variants@ == variants@
                &&& flag.archived == row.archived
                &&& flag.created_at == row.created_at
                &&& flag.updated_at == row.updated_at
            },
            Err(error) => flag_of(row) == Err::<Flag, StorageError>(
                StorageError::Malformed { entity: "flag", source: error },
            ),
        },
{
}

/// A configuration carries what its row holds, field by field. A row of which a
/// document does not decode is malformed, with the first decoder's error.
pub proof fn a_configuration_carries_its_row(row: ConfigRow)
    ensures
        match (row.fallthrough, row.rules) {
            (Ok(fallthrough), Ok(rules)) => {
                &&& config_of(row) matches Ok(config)
                &&& config.flag_id == row.flag_id
                &&& config.environment_id == row.environment_id
                &&& config.enabled == row.enabled
                &&& config.off_variant@ == row.off_variant@
                &&& config.fallthrough == fallthrough
                &&& config.rules@ == rules@
                &&& config.version == row.version
                &&& config.updated_at == row.updated_at
            },
            (Err(error), _) => config_of(row) == Err::<FlagConfig, StorageError>(
                StorageError::Malformed { entity: "flag configuration", source: error },
            ),
            (_, Err(error)) => config_of(row) == Err::<FlagConfig, StorageError>(
                StorageError::Malformed { entity: "flag configuration", source: error },
            ),
        },
{
}

} // verus!
