//! What the server sends.

use vstd::prelude::*;

use crate::domain::{Distribution, Rule, SegmentRule, Variant, VariantResult};
use crate::keyset::KeySet;
use crate::text::{beginning, same_text, start_of, to_uppercase, uppercase};

verus! {

#[derive(Debug, Clone)]
pub struct User {
    pub id: String,
    pub organization_id: String,
    pub email: String,
    pub role: String,
    pub created_at: String,
}

/// Whether a role may change things.
pub open spec fn may_write(role: Seq<char>) -> bool {
    role == "owner"@ || role == "admin"@ || role == "member"@
}

/// Whether a role may manage the project itself.
pub open spec fn may_administer(role: Seq<char>) -> bool {
    role == "owner"@ || role == "admin"@
}

impl User {
    pub fn can_write(&self) -> (yes: bool)
        ensures
            yes == may_write(self.role@),
            yes <==> self.role@ == "owner"@ || self.role@ == "admin"@ || self.role@ == "member"@,
    {
        same_text(self.role.as_str(), "owner") || same_text(self.role.as_str(), "admin")
            || same_text(self.role.as_str(), "member")
    }

    pub fn can_administer(&self) -> (yes: bool)
        ensures
            yes == may_administer(self.role@),
            yes <==> self.role@ == "owner"@ || self.role@ == "admin"@,
    {
        same_text(self.role.as_str(), "owner") || same_text(self.role.as_str(), "admin")
    }

    /// Initials for the sidebar avatar.
    pub fn initials(&self) -> (text: String)
        ensures
            text@ == uppercase(beginning(self.email@, 2)),
    {
        let start = start_of(self.email.as_str(), 2);
        to_uppercase(start.as_str())
    }
}

/// Who may administer may write.
pub proof fn administering_includes_writing(role: Seq<char>)
    ensures
        may_administer(role) ==> may_write(role),
        may_write(role) <==> role == "owner"@ || role == "admin"@ || role == "member"@,
        may_administer(role) <==> role == "owner"@ || role == "admin"@,
{
}

#[derive(Debug, Clone)]
pub struct Organization {
    pub id: String,
    pub name: String,
    pub slug: String,
}

#[derive(Debug, Clone)]
pub struct Session {
    pub token: String,
    pub expires_in: u64,
    pub user: User,
}

#[derive(Debug, Clone)]
pub struct Me {
    pub user: User,
    pub organization: Organization,
}

#[derive(Debug, Clone)]
pub struct Project {
    pub id: String,
    pub key: String,
    pub name: String,
    pub description: Option<String>,
    pub created_at: String,
}

#[derive(Debug, Clone)]
pub struct Environment {
    pub id: String,
    pub key: String,
    pub name: String,
    pub is_production: bool,
}

#[derive(Debug, Clone)]
pub struct Flag {
    pub id: String,
    pub key: String,
    pub name: String,
    pub description: Option<String>,
    pub variants: Vec<Variant>,
    pub archived: bool,
    pub updated_at: String,
}

#[derive(Debug, Clone)]
pub struct FlagConfig {
    pub flag_id: String,
    pub environment_id: String,
    pub enabled: bool,
    pub off_variant: String,
    pub fallthrough: Distribution,
    pub rules: Vec<Rule>,
    pub version: i64,
    pub updated_at: String,
}

/// A flag together with how it is configured in one environment, which the
/// dashboard shows as a single row.
#[derive(Debug, Clone)]
pub struct ConfiguredFlag {
    pub flag: Flag,
    pub config: FlagConfig,
}

/// A reusable audience.
#[derive(Debug, Clone)]
pub struct Segment {
    pub id: String,
    pub key: String,
    pub name: String,
    pub description: Option<String>,
    pub included: KeySet,
    pub excluded: KeySet,
    pub rules: Vec<SegmentRule>,
    pub version: i64,
    pub updated_at: String,
}

impl Segment {
    /// Whether there is no way into the segment. Not a member count, which would
    /// need the whole population, but it tells "defined" from "empty".
    pub fn is_empty(&self) -> (empty: bool)
        ensures
            empty == (self.included@.len() == 0 && self.rules@.len() == 0),
    {
        self.included.is_empty() && self.rules.len() == 0
    }
}

/// A segment plus the flags whose rules name it.
#[derive(Debug, Clone)]
pub struct SegmentWithUsage {
    pub segment: Segment,
    pub referenced_by: Vec<String>,
}

/// An experiment.
#[derive(Debug, Clone)]
pub struct Experiment {
    pub id: String,
    pub key: String,
    pub name: String,
    pub description: Option<String>,
    pub flag_key: String,
    /// The flag's variants, so that the results show every arm without a second
    /// request.
    pub variants: Vec<Variant>,
    pub metric_key: String,
    pub control_variant: String,
    /// `draft`, `running` or `stopped`.
    pub state: String,
    pub started_at: Option<String>,
    pub stopped_at: Option<String>,
    pub version: i64,
}

/// An experiment next to its judged results.
#[derive(Debug, Clone)]
pub struct ExperimentResults {
    pub experiment: Experiment,
    pub results: Vec<VariantResult>,
}

#[derive(Debug, Clone)]
pub struct ApiKey {
    pub id: String,
    pub name: String,
    pub prefix: String,
    pub scope: String,
    pub created_at: String,
    pub last_used_at: Option<String>,
    pub revoked_at: Option<String>,
}

#[derive(Debug, Clone)]
pub struct CreatedKey {
    pub key: ApiKey,
    pub secret: String,
}

#[derive(Debug, Clone)]
pub struct AuditEntry {
    pub id: i64,
    pub actor_email: String,
    pub action: String,
    pub resource_type: String,
    pub resource_id: String,
    pub before: Option<serde_json::Value>,
    pub after: Option<serde_json::Value>,
    pub created_at: String,
}

#[derive(Debug, Clone)]
pub struct AuditPage {
    pub entries: Vec<AuditEntry>,
    pub next_cursor: Option<i64>,
}

} // verus!
