//! Projects and their environments.

use vstd::prelude::*;

use crate::ids::Uuid;
use crate::storage::error::{
    affected, found_or_missing, reports_write, written, FoundExt, StorageError,
};
use crate::storage::models::{Environment, Project};

verus! {

/// A new project, or what the refusal to insert it means.
pub fn create_project(inserted: Result<Project, sqlx::Error>, key: &str) -> (created: Result<
    Project,
    StorageError,
>)
    ensures
        match inserted {
            Ok(project) => created == Ok::<Project, StorageError>(project),
            Err(error) => created matches Err(reported) && reports_write(
                reported,
                error,
                "project",
                key@,
            ),
        },
{
    written(inserted, "project", key)
}

/// A project found within its organization.
pub fn find_project(row: Option<Project>) -> (found: Result<Project, StorageError>)
    ensures
        found == found_or_missing(row, "project"),
{
    row.or_not_found("project")
}

/// Whether a project is the one an organization has under a key.
pub open spec fn is_project(project: Project, organization_id: Uuid, key: Seq<char>) -> bool {
    project.organization_id == organization_id && project.key@ == key
}

/// Whether a row is what a lookup by organization and key reads from the stored
/// projects: one that has both, or none where none has.
pub open spec fn reads_project(
    row: Option<Project>,
    stored: Seq<Project>,
    organization_id: Uuid,
    key: Seq<char>,
) -> bool {
    match row {
        Some(project) => stored.contains(project) && is_project(project, organization_id, key),
        None => forall|i: int|
            0 <= i < stored.len() ==> !is_project(#[trigger] stored[i], organization_id, key),
    }
}

/// A project is found in its own organization and in no other: a lookup succeeds
/// exactly where the organization has a project under the key, and what other
/// organizations have makes no difference to it.
pub proof fn a_project_is_found_in_its_own_organization_only(
    stored: Seq<Project>,
    organization_id: Uuid,
    key: Seq<char>,
    row: Option<Project>,
    strangers: Seq<Project>,
)
    requires
        reads_project(row, stored, organization_id, key),
        forall|i: int|
            0 <= i < strangers.len() ==> (#[trigger] strangers[i]).organization_id
                != organization_id,
    ensures
        match found_or_missing(row, "project") {
            Ok(project) => {
                &&& stored.contains(project)
                &&& project.organization_id == organization_id
                &&& project.key@ == key
            },
            Err(error) => {
                &&& error == StorageError::NotFound { entity: "project" }
                &&& forall|i: int|
                    0 <= i < stored.len() ==> (#[trigger] stored[i]).organization_id
                        != organization_id || stored[i].key@ != key
            },
        },
        reads_project(row, stored + strangers, organization_id, key),
        forall|other: Option<Project>|
            reads_project(other, strangers, organization_id, key) ==> found_or_missing(
                other,
                "project",
            ) == Err::<Project, StorageError>(StorageError::NotFound { entity: "project" }),
{
    let all = stored + strangers;
    assert(forall|project: Project| #[trigger]
        is_project(project, organization_id, key) <==> project.organization_id == organization_id
            && project.key@ == key);
    match row {
        Some(project) => {
            let i = choose|i: int| 0 <= i < stored.len() && stored[i] == project;
            assert(all[i] == project);
        },
        None => {
            assert forall|i: int| 0 <= i < stored.len() implies (
            #[trigger] stored[i]).organization_id != organization_id || stored[i].key@ != key by {
                assert(!is_project(stored[i], organization_id, key));
            }
            assert forall|i: int| 0 <= i < all.len() implies !is_project(
                #[trigger] all[i],
                organization_id,
                key,
            ) by {
                if i < stored.len() {
                    assert(all[i] == stored[i]);
                } else {
                    assert(all[i] == strangers[i - stored.len()]);
                }
            }
        },
    }
}

/// Whether a project was there to delete.
pub fn delete_project(rows_affected: u64) -> (outcome: Result<(), StorageError>)
    ensures
        outcome == (if rows_affected == 0 {
            Err::<(), StorageError>(StorageError::NotFound { entity: "project" })
        } else {
            Ok(())
        }),
{
    affected(rows_affected, "project")
}

/// A new environment, or what the refusal to insert it means. It is then seeded
/// with every flag of its project: see [`crate::storage::seeding`].
pub fn create_environment(inserted: Result<Environment, sqlx::Error>, key: &str) -> (created:
    Result<Environment, StorageError>)
    ensures
        match inserted {
            Ok(environment) => created == Ok::<Environment, StorageError>(environment),
            Err(error) => created matches Err(reported) && reports_write(
                reported,
                error,
                "environment",
                key@,
            ),
        },
{
    written(inserted, "environment", key)
}

/// An environment found within its project.
pub fn find_environment(row: Option<Environment>) -> (found: Result<Environment, StorageError>)
    ensures
        found == found_or_missing(row, "environment"),
{
    row.or_not_found("environment")
}

/// Whether an environment was there to delete.
pub fn delete_environment(rows_affected: u64) -> (outcome: Result<(), StorageError>)
    ensures
        outcome == (if rows_affected == 0 {
            Err::<(), StorageError>(StorageError::NotFound { entity: "environment" })
        } else {
            Ok(())
        }),
{
    affected(rows_affected, "environment")
}

} // verus!
