//! Organizations and users.

use vstd::prelude::*;

use crate::ids::Uuid;
use crate::storage::error::{found_or_missing, reports_write, written, FoundExt, StorageError};
use crate::storage::models::{
    roles_are_read_by_name, stored_role, Organization, Role, User, UserWithSecret,
};
use crate::text::{is_space, lowercase, space_around_is_trimmed, to_lowercase, trim, trimmed};
use crate::time::Timestamp;

verus! {

/// A user as a statement returns it: the role is still text.
#[derive(Debug)]
pub struct UserRow {
    pub id: Uuid,
    pub organization_id: Uuid,
    pub email: String,
    pub role: String,
    pub created_at: Timestamp,
}

/// The user a row stands for. A role that no longer exists grants the least.
pub open spec fn user_of(row: UserRow) -> User {
    User {
        id: row.id,
        organization_id: row.organization_id,
        email: row.email,
        role: stored_role(row.role@),
        created_at: row.created_at,
    }
}

/// The user a row stands for.
pub fn build_user(row: UserRow) -> (user: User)
    ensures
        user == user_of(row),
        user.id == row.id,
        user.organization_id == row.organization_id,
        user.email@ == row.email@,
        user.created_at == row.created_at,
        user.role == Role::Owner <==> row.role@ == "owner"@,
        user.role == Role::Admin <==> row.role@ == "admin"@,
        user.role == Role::Member <==> row.role@ == "member"@,
{
    proof {
        roles_are_read_by_name(row.role@);
    }
    User {
        id: row.id,
        organization_id: row.organization_id,
        email: row.email,
        role: Role::stored(row.role.as_str()),
        created_at: row.created_at,
    }
}

/// An address as it is stored and looked up: without surrounding white space,
/// in lower case.
pub fn normalize_email(email: &str) -> (normal: String)
    ensures
        normal@ == lowercase(trimmed(email@)),
{
    to_lowercase(trim(email).as_str())
}

/// The user that follows a new organization.
#[derive(Debug)]
pub struct NewOwner {
    pub organization_id: Uuid,
    pub email: String,
    pub role: Role,
}

/// The first step of a sign-up: the organization was inserted, or the whole
/// sign-up fails. What comes next is its owner.
pub fn organization_inserted(
    inserted: Result<Organization, sqlx::Error>,
    slug: &str,
    email: &str,
) -> (next: Result<(Organization, NewOwner), StorageError>)
    ensures
        match inserted {
            Ok(org) => {
                &&& next is Ok
                &&& next->Ok_0.0 == org
                &&& next->Ok_0.1.organization_id == org.id
                &&& next->Ok_0.1.email@ == lowercase(trimmed(email@))
                &&& next->Ok_0.1.role == Role::Owner
            },
            Err(error) => next matches Err(reported) && reports_write(
                reported,
                error,
                "organization",
                slug@,
            ),
        },
{
    let org = match written(inserted, "organization", slug) {
        Ok(org) => org,
        Err(error) => return Err(error),
    };
    let owner = NewOwner {
        organization_id: org.id,
        email: normalize_email(email),
        role: Role::Owner,
    };
    Ok((org, owner))
}

/// The second step of a sign-up: its owner was inserted, or the whole sign-up
/// fails.
///
/// Sign-up is all or nothing: an organization with no owner would be
/// unreachable, and a user with no organization has nothing to administer. So
/// this is the only step that hands out either, and it hands out both.
pub fn create_organization_with_owner(
    org: Organization,
    inserted: Result<UserRow, sqlx::Error>,
    owner: &NewOwner,
) -> (created: Result<(Organization, User), StorageError>)
    ensures
        match inserted {
            Ok(row) => created == Ok::<(Organization, User), StorageError>((org, user_of(row))),
            Err(error) => created matches Err(reported) && reports_write(
                reported,
                error,
                "user",
                owner.email@,
            ),
        },
{
    match written(inserted, "user", owner.email.as_str()) {
        Ok(row) => Ok((org, build_user(row))),
        Err(error) => Err(error),
    }
}

/// The user and the hash in a row, if there is one.
pub open spec fn user_with_secret(row: Option<(UserRow, String)>) -> Option<UserWithSecret> {
    match row {
        Some((user, hash)) => Some(UserWithSecret { user: user_of(user), password_hash: hash }),
        None => None,
    }
}

/// A user found by address, with the hash to check a password against. Callers
/// must not let the result into a response.
pub fn find_by_email(row: Option<(UserRow, String)>) -> (found: Option<UserWithSecret>)
    ensures
        found == user_with_secret(row),
{
    match row {
        Some((user, password_hash)) => Some(
            UserWithSecret { user: build_user(user), password_hash },
        ),
        None => None,
    }
}

/// Whether a row is what a lookup by address reads from the stored users: one
/// whose address, in the database's lower case, is the one asked for, or none
/// where no user has it.
pub open spec fn reads_user(
    row: Option<(UserRow, String)>,
    stored: Seq<(UserRow, String)>,
    lower: spec_fn(Seq<char>) -> Seq<char>,
    address: Seq<char>,
) -> bool {
    match row {
        Some(user) => stored.contains(user) && lower(user.0.email@) == address,
        None => forall|i: int| 0 <= i < stored.len() ==> lower((#[trigger] stored[i]).0.email@)
            != address,
    }
}

/// Whoever signed up with an address is found again by it, with the hash that was
/// stored, whatever the case and the blanks it is asked for with. The database's
/// lower case leaves the stored address alone, and no two users share one.
pub proof fn a_user_is_found_again(
    signed_up: Seq<char>,
    asked: Seq<char>,
    owner: (UserRow, String),
    stored: Seq<(UserRow, String)>,
    lower: spec_fn(Seq<char>) -> Seq<char>,
    row: Option<(UserRow, String)>,
)
    requires
        stored.contains(owner),
        owner.0.email@ == lowercase(trimmed(signed_up)),
        lower(owner.0.email@) == owner.0.email@,
        forall|i: int|
            0 <= i < stored.len() && lower((#[trigger] stored[i]).0.email@) == owner.0.email@
                ==> stored[i] == owner,
        lowercase(trimmed(asked)) == lowercase(trimmed(signed_up)),
        reads_user(row, stored, lower, lowercase(trimmed(asked))),
    ensures
        user_with_secret(row) == Some(
            UserWithSecret { user: user_of(owner.0), password_hash: owner.1 },
        ),
{
    let i = choose|i: int| 0 <= i < stored.len() && stored[i] == owner;
    assert(lower(stored[i].0.email@) == owner.0.email@);
    if let Some(user) = row {
        let j = choose|j: int| 0 <= j < stored.len() && stored[j] == user;
        assert(stored[j] == owner);
    }
}

/// An address that no user has finds nobody.
pub proof fn an_unknown_address_finds_nobody(
    asked: Seq<char>,
    stored: Seq<(UserRow, String)>,
    lower: spec_fn(Seq<char>) -> Seq<char>,
    row: Option<(UserRow, String)>,
)
    requires
        forall|i: int|
            0 <= i < stored.len() ==> lower((#[trigger] stored[i]).0.email@) != lowercase(
                trimmed(asked),
            ),
        reads_user(row, stored, lower, lowercase(trimmed(asked))),
    ensures
        user_with_secret(row) is None,
{
    if let Some(user) = row {
        let i = choose|i: int| 0 <= i < stored.len() && stored[i] == user;
        assert(lower(stored[i].0.email@) == lowercase(trimmed(asked)));
    }
}

/// Blanks around an address make no difference to how it is stored and looked up.
pub proof fn blanks_around_an_address_do_not_matter(
    before: Seq<char>,
    address: Seq<char>,
    after: Seq<char>,
)
    requires
        forall|i: int| 0 <= i < before.len() ==> is_space(#[trigger] before[i]),
        forall|i: int| 0 <= i < after.len() ==> is_space(#[trigger] after[i]),
    ensures
        lowercase(trimmed(before + address + after)) == lowercase(trimmed(address)),
{
    space_around_is_trimmed(before, address, after);
}

/// A user found by identifier.
pub fn find_user(row: Option<UserRow>) -> (found: Result<User, StorageError>)
    ensures
        found == (match row {
            Some(user) => Ok(user_of(user)),
            None => Err(StorageError::NotFound { entity: "user" }),
        }),
{
    let user = match row {
        Some(row) => Some(build_user(row)),
        None => None,
    };
    user.or_not_found("user")
}

/// An organization found by identifier.
pub fn find_organization(row: Option<Organization>) -> (found: Result<Organization, StorageError>)
    ensures
        found == found_or_missing(row, "organization"),
{
    row.or_not_found("organization")
}

/// A user carries what the row holds, field by field, and the hash stays with the
/// user it was stored for.
pub proof fn a_user_carries_the_row(row: UserRow, hash: String)
    ensures
        user_of(row).id == row.id,
        user_of(row).organization_id == row.organization_id,
        user_of(row).email@ == row.email@,
        user_of(row).created_at == row.created_at,
        user_of(row).role == Role::Owner <==> row.role@ == "owner"@,
        user_of(row).role == Role::Admin <==> row.role@ == "admin"@,
        user_of(row).role == Role::Member <==> row.role@ == "member"@,
        user_with_secret(None) is None,
        user_with_secret(Some((row, hash))) matches Some(found) && found.user == user_of(row)
            && found.password_hash@ == hash@,
{
    roles_are_read_by_name(row.role@);
}

} // verus!
