//! Row types shared between the storage and API layers.

use vstd::prelude::*;

use crate::domain;
use crate::domain::{copy_segment_rules, segment_rule_models};
use crate::domain::{Distribution, ExperimentSpec, Rule, SegmentRule, Variant};
use crate::ids::Uuid;
use crate::keyset::KeySet;
use crate::text::{copy_maybe, same_text};
use crate::time::Timestamp;

verus! {

/// A JSON document, carried as it came.
#[verifier::external_type_specification]
#[verifier::external_body]
pub struct ExJsonValue(serde_json::Value);

// ---------------------------------------------------------------------- roles

#[derive(Debug, Clone, Copy, PartialEq, Eq, Structural)]
pub enum Role {
    Owner,
    Admin,
    Member,
    Viewer,
}

/// The role a text names.
pub open spec fn role_named(raw: Seq<char>) -> Option<Role> {
    if raw == "owner"@ {
        Some(Role::Owner)
    } else if raw == "admin"@ {
        Some(Role::Admin)
    } else if raw == "member"@ {
        Some(Role::Member)
    } else if raw == "viewer"@ {
        Some(Role::Viewer)
    } else {
        None
    }
}

impl Role {
    /// How the role is written.
    pub open spec fn name(self) -> Seq<char> {
        match self {
            Role::Owner => "owner"@,
            Role::Admin => "admin"@,
            Role::Member => "member"@,
            Role::Viewer => "viewer"@,
        }
    }

    pub fn as_str(self) -> (text: &'static str)
        ensures
            text@ == self.name(),
    {
        match self {
            Role::Owner => "owner",
            Role::Admin => "admin",
            Role::Member => "member",
            Role::Viewer => "viewer",
        }
    }

    pub fn parse(raw: &str) -> (role: Option<Role>)
        ensures
            role == role_named(raw@),
    {
        if same_text(raw, "owner") {
            Some(Role::Owner)
        } else if same_text(raw, "admin") {
            Some(Role::Admin)
        } else if same_text(raw, "member") {
            Some(Role::Member)
        } else if same_text(raw, "viewer") {
            Some(Role::Viewer)
        } else {
            None
        }
    }

    /// Whether this role may change configuration. Viewers get a read-only view
    /// of production, which is the point of having them.
    pub fn can_write(self) -> (yes: bool)
        ensures
            yes == (self != Role::Viewer),
    {
        match self {
            Role::Owner | Role::Admin | Role::Member => true,
            Role::Viewer => false,
        }
    }

    /// Whether this role may manage users and API keys.
    pub fn can_administer(self) -> (yes: bool)
        ensures
            yes == (self == Role::Owner || self == Role::Admin),
    {
        match self {
            Role::Owner | Role::Admin => true,
            Role::Member | Role::Viewer => false,
        }
    }

    /// The role a stored text names, and the least powerful one where it names
    /// none.
    pub fn stored(raw: &str) -> (role: Role)
        ensures
            role == stored_role(raw@),
    {
        match Role::parse(raw) {
            Some(role) => role,
            None => Role::Viewer,
        }
    }
}

/// The role a stored text names, and the least powerful one where it names none.
pub open spec fn stored_role(raw: Seq<char>) -> Role {
    match role_named(raw) {
        Some(role) => role,
        None => Role::Viewer,
    }
}

/// A role reads back as the role that was written, and no other text names it.
pub proof fn roles_round_trip(role: Role, raw: Seq<char>)
    ensures
        role_named(role.name()) == Some(role),
        role_named(raw) == Some(role) ==> raw == role.name(),
{
    reveal_strlit("owner");
    reveal_strlit("admin");
    reveal_strlit("member");
    reveal_strlit("viewer");
    assert("owner"@[0] == 'o' && "admin"@[0] == 'a' && "member"@[0] == 'm' && "viewer"@[0] == 'v');
}

/// A stored role is the one its name says, and anything that is no name of a role
/// grants the least.
pub proof fn roles_are_read_by_name(raw: Seq<char>)
    ensures
        stored_role(raw) == Role::Owner <==> raw == "owner"@,
        stored_role(raw) == Role::Admin <==> raw == "admin"@,
        stored_role(raw) == Role::Member <==> raw == "member"@,
        role_named(raw) is Some <==> (raw == "owner"@ || raw == "admin"@ || raw == "member"@ || raw
            == "viewer"@),
        role_named(raw) is Some ==> role_named(raw) == Some(stored_role(raw)),
{
    roles_round_trip(stored_role(raw), raw);
    reveal_strlit("owner");
    reveal_strlit("admin");
    reveal_strlit("member");
    reveal_strlit("viewer");
    assert("owner"@[0] == 'o' && "admin"@[0] == 'a' && "member"@[0] == 'm' && "viewer"@[0] == 'v');
}

// --------------------------------------------------------------------- scopes

#[derive(Debug, Clone, Copy, PartialEq, Eq, Structural)]
pub enum KeyScope {
    /// Full evaluation access; must stay on a server.
    Server,
    /// Intended for browsers and mobile apps.
    Client,
}

/// The scope a text names.
pub open spec fn scope_named(raw: Seq<char>) -> Option<KeyScope> {
    if raw == "server"@ {
        Some(KeyScope::Server)
    } else if raw == "client"@ {
        Some(KeyScope::Client)
    } else {
        None
    }
}

impl KeyScope {
    /// How the scope is written.
    pub open spec fn name(self) -> Seq<char> {
        match self {
            KeyScope::Server => "server"@,
            KeyScope::Client => "client"@,
        }
    }

    pub fn as_str(self) -> (text: &'static str)
        ensures
            text@ == self.name(),
    {
        match self {
            KeyScope::Server => "server",
            KeyScope::Client => "client",
        }
    }

    pub fn parse(raw: &str) -> (scope: Option<KeyScope>)
        ensures
            scope == scope_named(raw@),
    {
        if same_text(raw, "server") {
            Some(KeyScope::Server)
        } else if same_text(raw, "client") {
            Some(KeyScope::Client)
        } else {
            None
        }
    }

    /// The scope a stored text names, and the narrower one where it names none.
    pub fn stored(raw: &str) -> (scope: KeyScope)
        ensures
            scope == stored_scope(raw@),
    {
        match KeyScope::parse(raw) {
            Some(scope) => scope,
            None => KeyScope::Client,
        }
    }
}

/// The scope a stored text names, and the narrower one where it names none.
pub open spec fn stored_scope(raw: Seq<char>) -> KeyScope {
    match scope_named(raw) {
        Some(scope) => scope,
        None => KeyScope::Client,
    }
}

/// A scope reads back as the scope that was written, and no other text names it.
pub proof fn scopes_round_trip(scope: KeyScope, raw: Seq<char>)
    ensures
        scope_named(scope.name()) == Some(scope),
        scope_named(raw) == Some(scope) ==> raw == scope.name(),
{
    reveal_strlit("server");
    reveal_strlit("client");
    assert("server"@[0] == 's' && "client"@[0] == 'c');
}

/// A stored scope is a server's only where it says so by name: anything else gets
/// the narrower one.
pub proof fn scopes_are_read_by_name(raw: Seq<char>)
    ensures
        stored_scope(raw) == KeyScope::Server <==> raw == "server"@,
        scope_named(raw) is Some <==> (raw == "server"@ || raw == "client"@),
        scope_named(raw) is Some ==> scope_named(raw) == Some(stored_scope(raw)),
{
    scopes_round_trip(stored_scope(raw), raw);
    reveal_strlit("server");
    reveal_strlit("client");
    assert("server"@[0] == 's' && "client"@[0] == 'c');
}

// -------------------------------------------------------------------- tenants

#[derive(Debug, PartialEq, Eq)]
pub struct Organization {
    pub id: Uuid,
    pub name: String,
    pub slug: String,
    pub created_at: Timestamp,
}

#[derive(Debug, PartialEq, Eq)]
pub struct User {
    pub id: Uuid,
    pub organization_id: Uuid,
    pub email: String,
    pub role: Role,
    pub created_at: Timestamp,
}

/// A user together with the secret needed to verify a login. Kept separate from
/// [`User`] so the hash cannot end up in a response by accident.
#[derive(Debug, PartialEq, Eq)]
pub struct UserWithSecret {
    pub user: User,
    pub password_hash: String,
}

#[derive(Debug, PartialEq, Eq)]
pub struct Project {
    pub id: Uuid,
    pub organization_id: Uuid,
    pub key: String,
    pub name: String,
    pub description: Option<String>,
    pub created_at: Timestamp,
}

#[derive(Debug, PartialEq, Eq)]
pub struct Environment {
    pub id: Uuid,
    pub project_id: Uuid,
    pub key: String,
    pub name: String,
    pub is_production: bool,
    pub created_at: Timestamp,
}

// ---------------------------------------------------------------------- flags

#[derive(Debug)]
pub struct Flag {
    pub id: Uuid,
    pub project_id: Uuid,
    pub key: String,
    pub name: String,
    pub description: Option<String>,
    pub variants: Vec<Variant>,
    pub archived: bool,
    pub created_at: Timestamp,
    pub updated_at: Timestamp,
}

/// A flag's configuration inside one environment.
#[derive(Debug)]
pub struct FlagConfig {
    pub flag_id: Uuid,
    pub environment_id: Uuid,
    pub enabled: bool,
    pub off_variant: String,
    pub fallthrough: Distribution,
    pub rules: Vec<Rule>,
    pub version: i64,
    pub updated_at: Timestamp,
}

/// A reusable audience, as stored.
///
/// Carries the administrative fields evaluation has no use for (name,
/// timestamps, the row id) alongside the membership definition. Evaluation only
/// ever sees [`Segment::definition`].
#[derive(Debug)]
pub struct Segment {
    pub id: Uuid,
    pub environment_id: Uuid,
    pub key: String,
    pub name: String,
    pub description: Option<String>,
    pub included: KeySet,
    pub excluded: KeySet,
    pub rules: Vec<SegmentRule>,
    pub version: i64,
    pub created_at: Timestamp,
    pub updated_at: Timestamp,
}

/// Whether a definition is the evaluation view of a stored segment.
pub open spec fn defines(definition: domain::Segment, segment: Segment) -> bool {
    &&& definition.key == segment.key
    &&& definition.description == segment.description
    &&& definition.included@ == segment.included@
    &&& definition.excluded@ == segment.excluded@
    &&& segment_rule_models(definition.rules@) == segment_rule_models(segment.rules@)
    &&& definition.version == segment.version
}

impl Segment {
    /// The evaluation view of this row.
    pub fn definition(&self) -> (definition: domain::Segment)
        ensures
            defines(definition, *self),
            definition.key@ == self.key@,
            definition.description == self.description,
            definition.included@ == self.included@,
            definition.excluded@ == self.excluded@,
            definition.rules@.len() == self.rules@.len(),
            forall|i: int|
                0 <= i < self.rules@.len() ==> (#[trigger] definition.rules@[i])@
                    == self.rules@[i]@,
            definition.version == self.version,
    {
        let definition = domain::Segment {
            key: self.key.clone(),
            description: copy_maybe(&self.description),
            included: self.included.clone(),
            excluded: self.excluded.clone(),
            rules: copy_segment_rules(&self.rules),
            version: self.version,
        };
        proof {
            let made = segment_rule_models(definition.rules@);
            let given = segment_rule_models(self.rules@);
            assert(made.len() == given.len());
            assert forall|i: int| 0 <= i < self.rules@.len() implies (
            #[trigger] definition.rules@[i])@ == self.rules@[i]@ by {
                assert(made[i] == given[i]);
            }
        }
        definition
    }
}

// ---------------------------------------------------------------- experiments

#[derive(Debug, Clone, Copy, PartialEq, Eq, Structural)]
pub enum ExperimentState {
    /// Defined but not yet measuring; the only state where the measurement
    /// fields may still be edited.
    Draft,
    /// Counting exposures and conversions; travels in the snapshot.
    Running,
    /// Finished. Terminal: reopening a measurement window would average two
    /// populations into an answer about neither.
    Stopped,
}

/// The state a text names.
pub open spec fn state_named(raw: Seq<char>) -> Option<ExperimentState> {
    if raw == "draft"@ {
        Some(ExperimentState::Draft)
    } else if raw == "running"@ {
        Some(ExperimentState::Running)
    } else if raw == "stopped"@ {
        Some(ExperimentState::Stopped)
    } else {
        None
    }
}

impl ExperimentState {
    /// How the state is written.
    pub open spec fn name(self) -> Seq<char> {
        match self {
            ExperimentState::Draft => "draft"@,
            ExperimentState::Running => "running"@,
            ExperimentState::Stopped => "stopped"@,
        }
    }

    pub fn as_str(self) -> (text: &'static str)
        ensures
            text@ == self.name(),
    {
        match self {
            ExperimentState::Draft => "draft",
            ExperimentState::Running => "running",
            ExperimentState::Stopped => "stopped",
        }
    }

    pub fn parse(raw: &str) -> (state: Option<ExperimentState>)
        ensures
            state == state_named(raw@),
    {
        if same_text(raw, "draft") {
            Some(ExperimentState::Draft)
        } else if same_text(raw, "running") {
            Some(ExperimentState::Running)
        } else if same_text(raw, "stopped") {
            Some(ExperimentState::Stopped)
        } else {
            None
        }
    }
}

/// A state reads back as the state that was written, and no other text names it.
pub proof fn states_round_trip(state: ExperimentState, raw: Seq<char>)
    ensures
        state_named(state.name()) == Some(state),
        state_named(raw) == Some(state) ==> raw == state.name(),
{
    reveal_strlit("draft");
    reveal_strlit("running");
    reveal_strlit("stopped");
    assert("draft"@[0] == 'd' && "running"@[0] == 'r' && "stopped"@[0] == 's');
}

/// A stored state is the one its name says, and nothing else names a state.
pub proof fn states_are_read_by_name(raw: Seq<char>)
    ensures
        state_named(raw) == Some(ExperimentState::Draft) <==> raw == "draft"@,
        state_named(raw) == Some(ExperimentState::Running) <==> raw == "running"@,
        state_named(raw) == Some(ExperimentState::Stopped) <==> raw == "stopped"@,
        forall|state: ExperimentState| #[trigger] state_named(raw) == Some(state) ==> raw
            == state.name(),
{
    reveal_strlit("draft");
    reveal_strlit("running");
    reveal_strlit("stopped");
    assert("draft"@[0] == 'd' && "running"@[0] == 'r' && "stopped"@[0] == 's');
}

/// An A/B experiment, as stored.
///
/// `flag_key` and `variants` are taken from the flag when the experiment is
/// read: every consumer needs them.
#[derive(Debug)]
pub struct Experiment {
    pub id: Uuid,
    pub environment_id: Uuid,
    pub flag_id: Uuid,
    pub flag_key: String,
    pub variants: Vec<Variant>,
    pub key: String,
    pub name: String,
    pub description: Option<String>,
    pub metric_key: String,
    pub control_variant: String,
    pub state: ExperimentState,
    pub started_at: Option<Timestamp>,
    pub stopped_at: Option<Timestamp>,
    pub version: i64,
    pub created_at: Timestamp,
    pub updated_at: Timestamp,
}

impl Experiment {
    /// What an SDK sees of the experiment, valid only while it is running.
    pub fn spec(&self) -> (seen: ExperimentSpec)
        ensures
            seen == (ExperimentSpec {
                key: self.key,
                flag_key: self.flag_key,
                metric_key: self.metric_key,
                control_variant: self.control_variant,
                version: self.version,
            }),
    {
        ExperimentSpec {
            key: self.key.clone(),
            flag_key: self.flag_key.clone(),
            metric_key: self.metric_key.clone(),
            control_variant: self.control_variant.clone(),
            version: self.version,
        }
    }
}

/// What one kind of counter counts.
#[derive(Debug, Clone, Copy, PartialEq, Eq, Hash, Structural)]
pub enum CounterKind {
    /// The flag was evaluated for a context while the experiment ran.
    Exposure,
    /// A tracked metric event attributed to a variant.
    Conversion,
}

impl CounterKind {
    /// How the kind is written.
    pub open spec fn name(self) -> Seq<char> {
        match self {
            CounterKind::Exposure => "exposure"@,
            CounterKind::Conversion => "conversion"@,
        }
    }

    pub fn as_str(self) -> (text: &'static str)
        ensures
            text@ == self.name(),
            self == CounterKind::Exposure ==> text@ == "exposure"@,
            self == CounterKind::Conversion ==> text@ == "conversion"@,
    {
        match self {
            CounterKind::Exposure => "exposure",
            CounterKind::Conversion => "conversion",
        }
    }
}

/// Each kind of counter is written differently.
pub proof fn kinds_are_told_apart(a: CounterKind, b: CounterKind)
    ensures
        a.name() == b.name() ==> a == b,
{
    reveal_strlit("exposure");
    reveal_strlit("conversion");
    assert("exposure"@[0] == 'e' && "conversion"@[0] == 'c');
}

/// One increment on its way into the counters.
#[derive(Debug, PartialEq, Eq)]
pub struct CounterDelta {
    pub experiment_key: String,
    pub variant: String,
    pub kind: CounterKind,
    pub at: Timestamp,
    pub count: u32,
}

// ----------------------------------------------------------------------- keys

#[derive(Debug, PartialEq, Eq)]
pub struct ApiKey {
    pub id: Uuid,
    pub environment_id: Uuid,
    pub name: String,
    /// Identifying prefix only; the secret itself is shown once, at creation.
    pub prefix: String,
    pub scope: KeyScope,
    pub created_at: Timestamp,
    pub last_used_at: Option<Timestamp>,
    pub revoked_at: Option<Timestamp>,
}

/// What a presented SDK key resolves to.
#[derive(Debug, PartialEq, Eq)]
pub struct KeyIdentity {
    pub api_key_id: Uuid,
    pub environment_id: Uuid,
    pub project_id: Uuid,
    pub organization_id: Uuid,
    pub scope: KeyScope,
}

// ---------------------------------------------------------------------- audit

#[derive(Debug)]
pub struct AuditEntry {
    pub id: i64,
    pub actor_email: String,
    pub action: String,
    pub resource_type: String,
    pub resource_id: String,
    pub environment_id: Option<Uuid>,
    pub before: Option<serde_json::Value>,
    pub after: Option<serde_json::Value>,
    pub created_at: Timestamp,
}

/// An audit record about to be written.
#[derive(Debug)]
pub struct NewAuditEntry {
    pub organization_id: Uuid,
    pub actor_user_id: Option<Uuid>,
    pub actor_email: String,
    pub action: String,
    pub resource_type: String,
    pub resource_id: String,
    pub environment_id: Option<Uuid>,
    pub before: Option<serde_json::Value>,
    pub after: Option<serde_json::Value>,
}

/// The document that encoding gave, if it gave one.
pub open spec fn encoded(
    outcome: Option<Result<serde_json::Value, serde_json::Error>>,
) -> Option<serde_json::Value> {
    match outcome {
        Some(Ok(value)) => Some(value),
        _ => None,
    }
}

fn take_encoded(outcome: Option<Result<serde_json::Value, serde_json::Error>>) -> (value: Option<
    serde_json::Value,
>)
    ensures
        value == encoded(outcome),
{
    match outcome {
        Some(Ok(value)) => Some(value),
        _ => None,
    }
}

impl NewAuditEntry {
    /// A record of one action, with nothing said yet about where it happened or
    /// what it changed.
    pub fn new(
        organization_id: Uuid,
        actor: (Option<Uuid>, &str),
        action: &str,
        resource_type: &str,
        resource_id: &str,
    ) -> (entry: NewAuditEntry)
        ensures
            entry.organization_id == organization_id,
            entry.actor_user_id == actor.0,
            entry.actor_email@ == actor.1@,
            entry.action@ == action@,
            entry.resource_type@ == resource_type@,
            entry.resource_id@ == resource_id@,
            entry.environment_id is None,
            entry.before is None,
            entry.after is None,
    {
        NewAuditEntry {
            organization_id,
            actor_user_id: actor.0,
            actor_email: actor.1.to_owned(),
            action: action.to_owned(),
            resource_type: resource_type.to_owned(),
            resource_id: resource_id.to_owned(),
            environment_id: None,
            before: None,
            after: None,
        }
    }

    /// The same record, placed in an environment.
    pub fn in_environment(self, environment_id: Uuid) -> (entry: NewAuditEntry)
        ensures
            entry == (NewAuditEntry { environment_id: Some(environment_id), ..self }),
    {
        NewAuditEntry { environment_id: Some(environment_id), ..self }
    }

    /// The same record, with the state before and after the change as encoding
    /// them gave it; a state that could not be encoded is left out.
    pub fn changing(
        self,
        before: Option<Result<serde_json::Value, serde_json::Error>>,
        after: Option<Result<serde_json::Value, serde_json::Error>>,
    ) -> (entry: NewAuditEntry)
        ensures
            entry == (NewAuditEntry { before: encoded(before), after: encoded(after), ..self }),
            forall|value: serde_json::Value|
                entry.before == Some(value) <==> before == Some(
                    Ok::<serde_json::Value, serde_json::Error>(value),
                ),
            forall|value: serde_json::Value|
                entry.after == Some(value) <==> after == Some(
                    Ok::<serde_json::Value, serde_json::Error>(value),
                ),
    {
        NewAuditEntry { before: take_encoded(before), after: take_encoded(after), ..self }
    }
}

} // verus!
