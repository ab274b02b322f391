//! SDK keys: the credentials the evaluation endpoint authenticates.

use vstd::prelude::*;

use crate::ids::Uuid;
use crate::storage::error::{affected, affected_or_missing, reports_write, written, StorageError};
use crate::storage::models::{
    scopes_are_read_by_name, stored_scope, ApiKey, KeyIdentity, KeyScope,
};
use crate::time::Timestamp;

verus! {

/// A key as a statement returns it: the scope is still text.
#[derive(Debug)]
pub struct ApiKeyRow {
    pub id: Uuid,
    pub environment_id: Uuid,
    pub name: String,
    pub prefix: String,
    pub scope: String,
    pub created_at: Timestamp,
    pub last_used_at: Option<Timestamp>,
    pub revoked_at: Option<Timestamp>,
}

/// The key a row stands for. A scope that no longer exists grants the least.
pub open spec fn key_of(row: ApiKeyRow) -> ApiKey {
    ApiKey {
        id: row.id,
        environment_id: row.environment_id,
        name: row.name,
        prefix: row.prefix,
        scope: stored_scope(row.scope@),
        created_at: row.created_at,
        last_used_at: row.last_used_at,
        revoked_at: row.revoked_at,
    }
}

/// The key a row stands for.
pub fn build_key(row: ApiKeyRow) -> (key: ApiKey)
    ensures
        key == key_of(row),
{
    ApiKey {
        id: row.id,
        environment_id: row.environment_id,
        name: row.name,
        prefix: row.prefix,
        scope: KeyScope::stored(row.scope.as_str()),
        created_at: row.created_at,
        last_used_at: row.last_used_at,
        revoked_at: row.revoked_at,
    }
}

/// A new key, or what the refusal to insert it means.
pub fn create(inserted: Result<ApiKeyRow, sqlx::Error>, name: &str) -> (created: Result<
    ApiKey,
    StorageError,
>)
    ensures
        match inserted {
            Ok(row) => {
                &&& created == Ok::<ApiKey, StorageError>(key_of(row))
                &&& created matches Ok(key)
                &&& key.id == row.id
                &&& key.environment_id == row.environment_id
                &&& key.name@ == row.name@
                &&& key.prefix@ == row.prefix@
                &&& key.scope == KeyScope::Server <==> row.scope@ == "server"@
                &&& key.created_at == row.created_at
                &&& key.last_used_at == row.last_used_at
                &&& key.revoked_at == row.revoked_at
            },
            Err(error) => created matches Err(reported) && reports_write(
                reported,
                error,
                "api key",
                name@,
            ),
        },
{
    proof {
        if inserted is Ok {
            a_key_carries_its_row(inserted->Ok_0);
        }
    }
    match written(inserted, "api key", name) {
        Ok(row) => Ok(build_key(row)),
        Err(error) => Err(error),
    }
}

/// The keys of an environment, in the order the rows came.
pub fn list(rows: Vec<ApiKeyRow>) -> (keys: Vec<ApiKey>)
    ensures
        keys@ == rows@.map_values(|row: ApiKeyRow| key_of(row)),
        forall|i: int|
            0 <= i < rows@.len() ==> {
                let row = rows@[i];
                let key = #[trigger] keys@[i];
                &&& key.id == row.id
                &&& key.environment_id == row.environment_id
                &&& key.name@ == row.name@
                &&& key.prefix@ == row.prefix@
                &&& key.scope == KeyScope::Server <==> row.scope@ == "server"@
                &&& key.created_at == row.created_at
                &&& key.last_used_at == row.last_used_at
                &&& key.revoked_at == row.revoked_at
            },
{
    let ghost all = rows@;
    let mut keys: Vec<ApiKey> = Vec::new();
    for row in it: rows
        invariant
            it.seq() == all,
            keys@ == all.take(it.index()).map_values(|row: ApiKeyRow| key_of(row)),
    {
        keys.push(build_key(row));
        assert(all.take(it.index() + 1).map_values(|row: ApiKeyRow| key_of(row)) =~= all.take(
            it.index(),
        ).map_values(|row: ApiKeyRow| key_of(row)).push(key_of(row)));
    }
    assert(all.take(all.len() as int) =~= all);
    proof {
        assert forall|i: int| 0 <= i < all.len() implies {
            let row = all[i];
            let key = #[trigger] keys@[i];
            &&& key.id == row.id
            &&& key.environment_id == row.environment_id
            &&& key.name@ == row.name@
            &&& key.prefix@ == row.prefix@
            &&& key.scope == KeyScope::Server <==> row.scope@ == "server"@
            &&& key.created_at == row.created_at
            &&& key.last_used_at == row.last_used_at
            &&& key.revoked_at == row.revoked_at
        } by {
            a_key_carries_its_row(all[i]);
        }
    }
    keys
}

/// Whether a revocation found its key.
///
/// Revoking again changes nothing, so a repeated revocation succeeds too.
pub fn revoke(rows_affected: u64) -> (outcome: Result<(), StorageError>)
    ensures
        outcome == affected_or_missing(rows_affected as nat, "api key"),
{
    affected(rows_affected, "api key")
}

/// A live key as a statement returns it, with the tenant it belongs to.
#[derive(Debug)]
pub struct KeyIdentityRow {
    pub id: Uuid,
    pub environment_id: Uuid,
    pub scope: String,
    pub project_id: Uuid,
    pub organization_id: Uuid,
}

/// The tenant in a row, if there is one.
pub open spec fn identity_of(row: Option<KeyIdentityRow>) -> Option<KeyIdentity> {
    match row {
        Some(r) => Some(
            KeyIdentity {
                api_key_id: r.id,
                environment_id: r.environment_id,
                project_id: r.project_id,
                organization_id: r.organization_id,
                scope: stored_scope(r.scope@),
            },
        ),
        None => None,
    }
}

/// The tenant a presented key belongs to, if the key is live.
pub fn resolve(row: Option<KeyIdentityRow>) -> (identity: Option<KeyIdentity>)
    ensures
        identity == identity_of(row),
        match row {
            Some(row) => {
                &&& identity matches Some(found)
                &&& found.api_key_id == row.id
                &&& found.environment_id == row.environment_id
                &&& found.project_id == row.project_id
                &&& found.organization_id == row.organization_id
                &&& found.scope == KeyScope::Server <==> row.scope@ == "server"@
            },
            None => identity is None,
        },
{
    proof {
        if row is Some {
            scopes_are_read_by_name(row->0.scope@);
        }
    }
    match row {
        Some(r) => Some(
            KeyIdentity {
                api_key_id: r.id,
                environment_id: r.environment_id,
                project_id: r.project_id,
                organization_id: r.organization_id,
                scope: KeyScope::stored(r.scope.as_str()),
            },
        ),
        None => None,
    }
}

// -------------------------------------------------------------- the life of keys

/// A key as the database stores it, with the hash it is found by and the tenant
/// it belongs to.
pub ghost struct StoredKey {
    pub row: ApiKeyRow,
    pub key_hash: Seq<char>,
    pub project_id: Uuid,
    pub organization_id: Uuid,
}

impl StoredKey {
    /// Whether this is the key an environment has under an identifier.
    pub open spec fn is_key(self, environment_id: Uuid, id: Uuid) -> bool {
        self.row.id == id && self.row.environment_id == environment_id
    }

    /// The key once it is revoked. One that was revoked before keeps its time.
    pub open spec fn revoked(self, now: Timestamp) -> StoredKey {
        StoredKey {
            row: ApiKeyRow {
                revoked_at: match self.row.revoked_at {
                    Some(at) => Some(at),
                    None => Some(now),
                },
                ..self.row
            },
            ..self
        }
    }

    /// The key once its use was recorded.
    pub open spec fn used(self, now: Timestamp) -> StoredKey {
        StoredKey { row: ApiKeyRow { last_used_at: Some(now), ..self.row }, ..self }
    }
}

/// The stored keys once one was revoked.
pub open spec fn revoked_in(
    stored: Seq<StoredKey>,
    environment_id: Uuid,
    id: Uuid,
    now: Timestamp,
) -> Seq<StoredKey> {
    stored.map_values(
        |key: StoredKey|
            if key.is_key(environment_id, id) {
                key.revoked(now)
            } else {
                key
            },
    )
}

/// How many stored keys a revocation touches.
pub open spec fn touched_in(stored: Seq<StoredKey>, environment_id: Uuid, id: Uuid) -> nat {
    stored.filter(|key: StoredKey| key.is_key(environment_id, id)).len()
}

/// A revocation succeeds exactly where the environment has the key. The key is
/// revoked afterwards, every other key is as it was, and a second revocation
/// comes to the same and changes nothing: a key that is dead already keeps the
/// time it was revoked at.
pub proof fn revoking_again_changes_nothing(
    stored: Seq<StoredKey>,
    environment_id: Uuid,
    id: Uuid,
    now: Timestamp,
    later: Timestamp,
)
    ensures
        ({
            let once = revoked_in(stored, environment_id, id, now);
            let outcome = affected_or_missing(touched_in(stored, environment_id, id), "api key");
            &&& revoked_in(once, environment_id, id, later) == once
            &&& affected_or_missing(touched_in(once, environment_id, id), "api key") == outcome
            &&& outcome is Ok <==> exists|i: int|
                0 <= i < stored.len() && (#[trigger] stored[i]).is_key(environment_id, id)
            &&& outcome is Err ==> once == stored
            &&& once.len() == stored.len()
            &&& forall|i: int|
                0 <= i < stored.len() ==> if stored[i].is_key(environment_id, id) {
                    (#[trigger] once[i]).row.revoked_at == (match stored[i].row.revoked_at {
                        Some(at) => Some(at),
                        None => Some(now),
                    })
                } else {
                    once[i] == stored[i]
                }
        }),
{
    let once = revoked_in(stored, environment_id, id, now);
    let this = |key: StoredKey| key.is_key(environment_id, id);
    assert forall|i: int| 0 <= i < stored.len() implies this(#[trigger] once[i]) == this(
        stored[i],
    ) by {}
    assert(revoked_in(once, environment_id, id, later) =~= once);
    touching_finds_the_key(stored, environment_id, id);
    touching_finds_the_key(once, environment_id, id);
    if exists|i: int| 0 <= i < once.len() && (#[trigger] once[i]).is_key(environment_id, id) {
        let i = choose|i: int| 0 <= i < once.len() && (#[trigger] once[i]).is_key(environment_id, id);
        assert(stored[i].is_key(environment_id, id));
    }
    if exists|i: int| 0 <= i < stored.len() && (#[trigger] stored[i]).is_key(environment_id, id) {
        let i = choose|i: int|
            0 <= i < stored.len() && (#[trigger] stored[i]).is_key(environment_id, id);
        assert(once[i].is_key(environment_id, id));
    } else {
        assert(once =~= stored);
    }
}

proof fn what_is_kept_was_stored(
    stored: Seq<StoredKey>,
    kept: spec_fn(StoredKey) -> bool,
    at: int,
)
    requires
        0 <= at < stored.filter(kept).len(),
    ensures
        stored.contains(stored.filter(kept)[at]),
    decreases stored.len(),
{
    reveal(Seq::filter);
    if stored.len() > 0 {
        let shorter = stored.drop_last();
        if at < shorter.filter(kept).len() {
            what_is_kept_was_stored(shorter, kept, at);
            let i = choose|i: int| 0 <= i < shorter.len() && shorter[i] == shorter.filter(kept)[at];
            assert(stored[i] == stored.filter(kept)[at]);
        } else {
            assert(stored[stored.len() - 1] == stored.filter(kept)[at]);
        }
    }
}

proof fn touching_finds_the_key(stored: Seq<StoredKey>, environment_id: Uuid, id: Uuid)
    ensures
        touched_in(stored, environment_id, id) > 0 <==> exists|i: int|
            0 <= i < stored.len() && (#[trigger] stored[i]).is_key(environment_id, id),
{
    let this = |key: StoredKey| key.is_key(environment_id, id);
    let found = stored.filter(this);
    if found.len() > 0 {
        stored.lemma_filter_pred(this, 0);
        what_is_kept_was_stored(stored, this, 0);
        let i = choose|i: int| 0 <= i < stored.len() && stored[i] == found[0];
        assert(stored[i].is_key(environment_id, id));
    }
    if exists|i: int| 0 <= i < stored.len() && (#[trigger] stored[i]).is_key(environment_id, id) {
        let i = choose|i: int|
            0 <= i < stored.len() && (#[trigger] stored[i]).is_key(environment_id, id);
        stored.lemma_filter_contains(this, i);
    }
}

/// Whether a row is what a lookup by hash reads from the stored keys: a live key
/// with that hash and its tenant, or none where no live key has it.
pub open spec fn reads_live(
    row: Option<KeyIdentityRow>,
    stored: Seq<StoredKey>,
    key_hash: Seq<char>,
) -> bool {
    match row {
        Some(r) => exists|i: int|
            0 <= i < stored.len() && is_live(#[trigger] stored[i], key_hash) && {
                &&& r.id == stored[i].row.id
                &&& r.environment_id == stored[i].row.environment_id
                &&& r.scope == stored[i].row.scope
                &&& r.project_id == stored[i].project_id
                &&& r.organization_id == stored[i].organization_id
            },
        None => forall|i: int|
            0 <= i < stored.len() ==> !is_live(#[trigger] stored[i], key_hash),
    }
}

/// Whether a key has a hash and was not revoked.
pub open spec fn is_live(key: StoredKey, key_hash: Seq<char>) -> bool {
    key.key_hash == key_hash && key.row.revoked_at is None
}

/// What can happen to the stored keys.
pub ghost enum KeyEvent {
    Created(StoredKey),
    Revoked { environment_id: Uuid, id: Uuid, now: Timestamp },
    Used { id: Uuid, now: Timestamp },
    /// An environment was deleted, its keys with it.
    EnvironmentDeleted { environment_id: Uuid },
}

/// The stored keys after an event.
pub open spec fn after_event(stored: Seq<StoredKey>, event: KeyEvent) -> Seq<StoredKey> {
    match event {
        KeyEvent::Created(key) => stored.push(key),
        KeyEvent::Revoked { environment_id, id, now } => revoked_in(
            stored,
            environment_id,
            id,
            now,
        ),
        KeyEvent::Used { id, now } => stored.map_values(
            |key: StoredKey|
                if key.row.id == id {
                    key.used(now)
                } else {
                    key
                },
        ),
        KeyEvent::EnvironmentDeleted { environment_id } => stored.filter(
            |key: StoredKey| key.row.environment_id != environment_id,
        ),
    }
}

/// The stored keys after a number of events.
pub open spec fn after_events(stored: Seq<StoredKey>, events: Seq<KeyEvent>) -> Seq<StoredKey>
    decreases events.len(),
{
    if events.len() == 0 {
        stored
    } else {
        after_event(after_events(stored, events.drop_last()), events.last())
    }
}

/// What a stored key resolves to while it is live.
pub open spec fn tenant_of(key: StoredKey) -> KeyIdentity {
    KeyIdentity {
        api_key_id: key.row.id,
        environment_id: key.row.environment_id,
        project_id: key.project_id,
        organization_id: key.organization_id,
        scope: stored_scope(key.row.scope@),
    }
}

/// A hash resolves exactly where a live key has it, and then to that key and the
/// tenant it belongs to.
pub proof fn a_hash_resolves_to_a_live_key(
    stored: Seq<StoredKey>,
    key_hash: Seq<char>,
    row: Option<KeyIdentityRow>,
)
    requires
        reads_live(row, stored, key_hash),
    ensures
        match identity_of(row) {
            Some(identity) => exists|i: int|
                0 <= i < stored.len() && is_live(#[trigger] stored[i], key_hash) && identity
                    == tenant_of(stored[i]),
            None => forall|i: int|
                0 <= i < stored.len() ==> !is_live(#[trigger] stored[i], key_hash),
        },
{
    if let Some(r) = row {
        let i = choose|i: int|
            0 <= i < stored.len() && is_live(#[trigger] stored[i], key_hash) && {
                &&& r.id == stored[i].row.id
                &&& r.environment_id == stored[i].row.environment_id
                &&& r.scope == stored[i].row.scope
                &&& r.project_id == stored[i].project_id
                &&& r.organization_id == stored[i].organization_id
            };
        assert(identity_of(row) == Some(tenant_of(stored[i])));
    }
}

/// A revoked key never resolves again, whatever happens to the stored keys
/// afterwards, as long as none is created with the same hash.
pub proof fn a_revoked_key_never_resolves(
    stored: Seq<StoredKey>,
    at: int,
    now: Timestamp,
    events: Seq<KeyEvent>,
    row: Option<KeyIdentityRow>,
)
    requires
        0 <= at < stored.len(),
        forall|i: int|
            0 <= i < stored.len() && i != at ==> (#[trigger] stored[i]).key_hash
                != stored[at].key_hash,
        forall|e: int|
            0 <= e < events.len() ==> ((#[trigger] events[e]) matches KeyEvent::Created(key)
                ==> key.key_hash != stored[at].key_hash),
        reads_live(
            row,
            after_events(
                revoked_in(stored, stored[at].row.environment_id, stored[at].row.id, now),
                events,
            ),
            stored[at].key_hash,
        ),
    ensures
        identity_of(row) is None,
{
    let once = revoked_in(stored, stored[at].row.environment_id, stored[at].row.id, now);
    assert forall|i: int| 0 <= i < once.len() implies !is_live(
        #[trigger] once[i],
        stored[at].key_hash,
    ) by {
        assert(once[i].key_hash == stored[i].key_hash);
    }
    dead_stays_dead(once, events, stored[at].key_hash);
}

proof fn dead_stays_dead(stored: Seq<StoredKey>, events: Seq<KeyEvent>, key_hash: Seq<char>)
    requires
        forall|i: int| 0 <= i < stored.len() ==> !is_live(#[trigger] stored[i], key_hash),
        forall|e: int|
            0 <= e < events.len() ==> ((#[trigger] events[e]) matches KeyEvent::Created(key)
                ==> key.key_hash != key_hash),
    ensures
        forall|i: int|
            0 <= i < after_events(stored, events).len() ==> !is_live(
                #[trigger] after_events(stored, events)[i],
                key_hash,
            ),
    decreases events.len(),
{
    if events.len() > 0 {
        let earlier = after_events(stored, events.drop_last());
        let now = after_events(stored, events);
        dead_stays_dead(stored, events.drop_last(), key_hash);
        assert(events[events.len() - 1] == events.last());
        assert forall|i: int| 0 <= i < now.len() implies !is_live(
            #[trigger] now[i],
            key_hash,
        ) by {
            match events.last() {
                KeyEvent::Created(_) => {
                    if i < earlier.len() {
                        assert(now[i] == earlier[i]);
                    }
                },
                KeyEvent::Revoked { .. } => {
                    assert(!is_live(earlier[i], key_hash));
                },
                KeyEvent::Used { .. } => {
                    assert(!is_live(earlier[i], key_hash));
                },
                KeyEvent::EnvironmentDeleted { environment_id } => {
                    let kept = |key: StoredKey| key.row.environment_id != environment_id;
                    what_is_kept_was_stored(earlier, kept, i);
                    let e = choose|e: int| 0 <= e < earlier.len() && earlier[e] == now[i];
                    assert(!is_live(earlier[e], key_hash));
                },
            }
        }
    }
}

/// A key carries what its row holds, field by field: the time it was revoked at,
/// above all. It is a server's key only where the row says so.
pub proof fn a_key_carries_its_row(row: ApiKeyRow)
    ensures
        key_of(row).id == row.id,
        key_of(row).environment_id == row.environment_id,
        key_of(row).name@ == row.name@,
        key_of(row).prefix@ == row.prefix@,
        key_of(row).scope == KeyScope::Server <==> row.scope@ == "server"@,
        key_of(row).created_at == row.created_at,
        key_of(row).last_used_at == row.last_used_at,
        key_of(row).revoked_at == row.revoked_at,
{
    scopes_are_read_by_name(row.scope@);
}

/// Once a key is revoked, listing it shows that it is, with the time of its first
/// revocation, and every other key is listed as before.
pub proof fn a_revoked_key_is_listed_as_revoked(
    stored: Seq<StoredKey>,
    environment_id: Uuid,
    id: Uuid,
    now: Timestamp,
    at: int,
)
    requires
        0 <= at < stored.len(),
    ensures
        ({
            let before = key_of(stored[at].row);
            let after = key_of(revoked_in(stored, environment_id, id, now)[at].row);
            if stored[at].row.id == id && stored[at].row.environment_id == environment_id {
                after.revoked_at == Some(
                    match stored[at].row.revoked_at {
                        Some(earlier) => earlier,
                        None => now,
                    },
                ) && after.last_used_at == before.last_used_at && after.id == id
            } else {
                after == before
            }
        }),
{
}

} // verus!
