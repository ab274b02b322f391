//! What the database's replies amount to.

use std::borrow::Cow;
use std::error::Error;
use std::fmt;

use flagforge::domain::{Distribution, Variant, WeightedVariant};
use flagforge::ids::{new_uuid, Uuid};
use flagforge::keyset::KeySet;
use flagforge::storage::accounts::{
    build_user, create_organization_with_owner, find_by_email, find_organization, find_user,
    normalize_email, organization_inserted, UserRow,
};
use flagforge::storage::api_keys;
use flagforge::storage::api_keys::{ApiKeyRow, KeyIdentityRow};
use flagforge::storage::audit::{page_limit, MAX_PAGE_SIZE};
use flagforge::storage::error::{
    classify_write, failed_to_read, FoundExt, StorageError, WriteFailure,
};
use flagforge::storage::experiments;
use flagforge::storage::experiments::{
    experiment_counts, ingest_batch, ingest_counters, CountRow, ExperimentRow, Transition,
};
use flagforge::storage::flags;
use flagforge::storage::flags::{ConfigRow, ConfiguredFlagRow, FlagRow};
use flagforge::storage::models::{
    CounterDelta, CounterKind, ExperimentState, KeyScope, NewAuditEntry, Organization, Role,
};
use flagforge::storage::notify::next_changed;
use flagforge::storage::pool::{connect, PoolConfig, Step, RETRY_DELAY, SECOND};
use flagforge::storage::projects;
use flagforge::storage::rows::{description_patch, gather};
use flagforge::storage::seeding::{
    choose_default, seed_environment, seed_flag, ExistingConfig, ProjectFlag,
};
use flagforge::storage::segments;
use flagforge::storage::segments::SegmentRow;
use flagforge::storage::snapshot;
use flagforge::storage::snapshot::EnvironmentRow;
use flagforge::time::{hour_of, Timestamp};

// -------------------------------------------------------------------- helpers

#[derive(Debug)]
struct Refusal {
    code: Option<&'static str>,
}

impl fmt::Display for Refusal {
    fn fmt(&self, f: &mut fmt::Formatter<'_>) -> fmt::Result {
        f.write_str("refused")
    }
}

impl Error for Refusal {}

impl sqlx::error::DatabaseError for Refusal {
    fn message(&self) -> &str {
        "refused"
    }

    fn code(&self) -> Option<Cow<'_, str>> {
        self.code.map(Cow::Borrowed)
    }

    fn as_error(&self) -> &(dyn Error + Send + Sync + 'static) {
        self
    }

    fn as_error_mut(&mut self) -> &mut (dyn Error + Send + Sync + 'static) {
        self
    }

    fn into_error(self: Box<Self>) -> Box<dyn Error + Send + Sync + 'static> {
        self
    }

    fn kind(&self) -> sqlx::error::ErrorKind {
        sqlx::error::ErrorKind::Other
    }
}

fn refused(code: &'static str) -> sqlx::Error {
    sqlx::Error::Database(Box::new(Refusal { code: Some(code) }))
}

fn bad_json() -> serde_json::Error {
    match serde_json::from_str::<serde_json::Value>("{") {
        Ok(_) => unreachable!(),
        Err(error) => error,
    }
}

fn id(bits: u128) -> Uuid {
    Uuid { bits }
}

fn at(seconds: i64) -> Timestamp {
    Timestamp { seconds, nanos: 0 }
}

fn variant(key: &str) -> Variant {
    Variant { key: key.to_owned(), value: "true".to_owned() }
}

fn fixed(variant: &str) -> Distribution {
    Distribution::Fixed { variant: variant.to_owned() }
}

fn keys(list: &[&str]) -> KeySet {
    KeySet::of(&list.iter().map(|k| (*k).to_owned()).collect::<Vec<String>>())
}

fn user_row(role: &str) -> UserRow {
    UserRow {
        id: id(1),
        organization_id: id(2),
        email: "a@b.c".to_owned(),
        role: role.to_owned(),
        created_at: at(0),
    }
}

fn organization() -> Organization {
    Organization {
        id: id(2),
        name: "Acme".to_owned(),
        slug: "acme".to_owned(),
        created_at: at(0),
    }
}

fn flag_row(variants: Result<Vec<Variant>, serde_json::Error>) -> FlagRow {
    FlagRow {
        id: id(1),
        project_id: id(2),
        key: "checkout".to_owned(),
        name: "Checkout".to_owned(),
        description: None,
        variants,
        archived: false,
        created_at: at(0),
        updated_at: at(1),
    }
}

fn config_row(fallthrough: Result<Distribution, serde_json::Error>) -> ConfigRow {
    ConfigRow {
        flag_id: id(1),
        environment_id: id(9),
        enabled: true,
        off_variant: "off".to_owned(),
        fallthrough,
        rules: Ok(Vec::new()),
        version: 4,
        updated_at: at(1),
    }
}

fn segment_row(version: i64) -> SegmentRow {
    SegmentRow {
        id: id(1),
        environment_id: id(9),
        key: "beta".to_owned(),
        name: "Beta".to_owned(),
        description: None,
        included: Ok(keys(&["b", "a"])),
        excluded: Ok(KeySet::new()),
        rules: Ok(Vec::new()),
        version,
        created_at: at(0),
        updated_at: at(1),
    }
}

fn experiment_row(state: &str) -> ExperimentRow {
    ExperimentRow {
        id: id(1),
        environment_id: id(9),
        flag_id: id(3),
        flag_key: "checkout".to_owned(),
        variants: Ok(vec![variant("on"), variant("off")]),
        key: "cta".to_owned(),
        name: "CTA".to_owned(),
        description: None,
        metric_key: "order".to_owned(),
        control_variant: "off".to_owned(),
        state: state.to_owned(),
        started_at: None,
        stopped_at: None,
        version: 1,
        created_at: at(0),
        updated_at: at(0),
    }
}

fn delta(experiment: &str, kind: CounterKind, seconds: i64, count: u32) -> CounterDelta {
    CounterDelta {
        experiment_key: experiment.to_owned(),
        variant: "on".to_owned(),
        kind,
        at: at(seconds),
        count,
    }
}

// ----------------------------------------------------------------------- pool

#[test]
fn the_startup_budget_is_far_longer_than_the_request_one() {
    let config = PoolConfig::new("postgres://x/y");
    assert!(
        config.startup_timeout > config.acquire_timeout * 4,
        "waiting for a database to boot and waiting for a busy pool are not the same wait"
    );
}

#[test]
fn pool_settings_are_the_documented_ones() {
    let config = PoolConfig::new("postgres://x/y");
    assert_eq!(config.url, "postgres://x/y");
    assert_eq!(config.max_connections, 20);
    assert_eq!(config.min_connections, 1);
    assert_eq!(config.acquire_timeout, 5 * SECOND);
    assert_eq!(config.startup_timeout, 30 * SECOND);
}

#[test]
fn connecting_retries_until_the_startup_budget_is_spent() {
    let mut config = PoolConfig::new("postgres://nobody@127.0.0.1:1/nothing");
    config.startup_timeout = 1_200_000_000;
    assert_eq!(connect(&config, true, 0), Step::Connected);
    assert_eq!(connect(&config, false, 0), Step::Retry(RETRY_DELAY));
    assert_eq!(connect(&config, false, 699_999_999), Step::Retry(500_000_000));
    assert_eq!(connect(&config, false, 700_000_000), Step::GiveUp);
    assert_eq!(connect(&config, false, u64::MAX), Step::GiveUp);
    // Attempts that fail at once: each wait is spent, and the budget is kept.
    let mut elapsed: u64 = 0;
    let mut attempts = 1;
    while let Step::Retry(wait) = connect(&config, false, elapsed) {
        elapsed += wait;
        attempts += 1;
    }
    assert_eq!(attempts, 3);
    assert!(elapsed < config.startup_timeout);
}

// --------------------------------------------------------------------- errors

#[test]
fn sqlstates_are_told_apart() {
    assert_eq!(classify_write(Some("23505")), WriteFailure::Duplicate);
    assert_eq!(classify_write(Some("23503")), WriteFailure::MissingReference);
    assert_eq!(classify_write(Some("23514")), WriteFailure::Constraint);
    assert_eq!(classify_write(Some("40001")), WriteFailure::Other);
    assert_eq!(classify_write(None), WriteFailure::Other);
}

#[test]
fn a_refused_write_is_reported_as_what_it_is() {
    assert!(matches!(
        StorageError::from_write(refused("23505"), "flag", "checkout"),
        StorageError::Conflict { entity: "flag", key } if key == "checkout"
    ));
    assert!(matches!(
        StorageError::from_write(refused("23503"), "flag", "checkout"),
        StorageError::NotFound { entity: "flag" }
    ));
    assert!(matches!(
        StorageError::from_write(refused("23514"), "flag", "checkout"),
        StorageError::Invalid { entity: "flag" }
    ));
    assert!(matches!(
        StorageError::from_write(sqlx::Error::RowNotFound, "flag", "checkout"),
        StorageError::Database(sqlx::Error::RowNotFound)
    ));
}

#[test]
fn errors_say_what_went_wrong() {
    assert_eq!(StorageError::not_found("flag").message(), "flag not found");
    assert_eq!(
        StorageError::Conflict { entity: "flag", key: "a".to_owned() }.message(),
        "flag `a` already exists"
    );
    assert_eq!(
        StorageError::VersionConflict { entity: "segment", expected: -3 }.message(),
        "segment was modified by someone else (you were working from version -3)"
    );
    assert_eq!(
        StorageError::Invalid { entity: "flag" }.message(),
        "flag failed a database constraint"
    );
    let in_use = StorageError::InUse {
        entity: "segment",
        key: "beta".to_owned(),
        referenced_by: vec!["a".to_owned(), "b".to_owned()],
    };
    assert_eq!(in_use.message(), "segment `beta` is still referenced by a, b");
    let source = bad_json();
    let expected = format!("stored flag is malformed: {source}");
    assert_eq!(StorageError::malformed("flag", source).message(), expected);
    let error = sqlx::Error::RowNotFound;
    let expected = error.to_string();
    assert_eq!(StorageError::Database(error).message(), expected);
}

#[test]
fn the_error_beneath_is_quoted() {
    let malformed = StorageError::malformed("flag", bad_json());
    assert_eq!(malformed.message_over("odd"), "stored flag is malformed: odd");
    assert_eq!(StorageError::from(sqlx::Error::PoolTimedOut).message_over("late"), "late");
    assert_eq!(StorageError::not_found("flag").message_over("unused"), "flag not found");
}

#[test]
fn a_driver_error_without_a_code_prints_its_own_words() {
    let cases = vec![
        (
            sqlx::Error::RowNotFound,
            "no rows returned by a query that expected to return at least one row",
        ),
        (sqlx::Error::PoolTimedOut, "pool timed out while waiting for an open connection"),
        (sqlx::Error::PoolClosed, "attempted to acquire a connection on a closed pool"),
        (sqlx::Error::WorkerCrashed, "attempted to communicate with a crashed background worker"),
        (
            sqlx::Error::InvalidSavePointStatement,
            "attempted to call begin_with at non-zero transaction depth",
        ),
        (
            sqlx::Error::BeginFailed,
            "got unexpected connection status after attempting to begin transaction",
        ),
        (sqlx::Error::InvalidArgument("odd".to_owned()), "odd"),
        (
            sqlx::Error::Protocol("odd".to_owned()),
            "encountered unexpected or invalid data: odd",
        ),
        (sqlx::Error::ColumnNotFound("key".to_owned()), "no column found for name: key"),
        (
            sqlx::Error::ColumnIndexOutOfBounds { index: 12, len: 7 },
            "column index out of bounds: the len is 7, but the index is 12",
        ),
    ];
    for (error, words) in cases {
        let error = StorageError::from(error);
        assert!(error.settled());
        assert_eq!(error.message(), words);
    }
}

#[test]
fn the_text_of_an_operating_system_error_is_not_settled() {
    let error = std::io::Error::from_raw_os_error(2);
    assert!(!StorageError::from(sqlx::Error::Io(error)).settled());
    let error = serde_json::Error::io(std::io::Error::from_raw_os_error(2));
    assert!(failed_to_read(&error));
    assert!(!StorageError::malformed("flag", error).settled());
    assert!(!failed_to_read(&bad_json()));
    assert!(StorageError::malformed("flag", bad_json()).settled());
    assert!(StorageError::from(refused("23505")).settled());
    assert!(StorageError::not_found("flag").settled());
}

#[test]
fn a_database_error_is_kept() {
    let error = StorageError::from(sqlx::Error::RowNotFound);
    assert!(matches!(error, StorageError::Database(sqlx::Error::RowNotFound)));
}

#[test]
fn a_missing_row_is_an_error() {
    assert!(matches!(Some(3).or_not_found("flag"), Ok(3)));
    assert!(matches!(
        None::<u8>.or_not_found("flag"),
        Err(StorageError::NotFound { entity: "flag" })
    ));
}

#[test]
fn the_first_failure_wins() {
    let items = vec![
        Ok(1),
        Err(StorageError::Invalid { entity: "first" }),
        Err(StorageError::Invalid { entity: "second" }),
    ];
    assert!(matches!(gather(items), Err(StorageError::Invalid { entity: "first" })));
    assert_eq!(gather(vec![Ok(1), Ok(2)]).unwrap_or_default(), vec![1, 2]);
}

#[test]
fn clearing_a_description_is_not_leaving_it_alone() {
    assert_eq!(description_patch(None), (false, None));
    assert_eq!(description_patch(Some(None)), (true, None));
    assert_eq!(description_patch(Some(Some("x"))), (true, Some("x")));
}

// --------------------------------------------------------------------- models

#[test]
fn stored_words_round_trip() {
    for role in [Role::Owner, Role::Admin, Role::Member, Role::Viewer] {
        assert_eq!(Role::parse(role.as_str()), Some(role));
    }
    assert_eq!(Role::parse("Owner"), None);
    for scope in [KeyScope::Server, KeyScope::Client] {
        assert_eq!(KeyScope::parse(scope.as_str()), Some(scope));
    }
    assert_eq!(KeyScope::parse(""), None);
    for state in [ExperimentState::Draft, ExperimentState::Running, ExperimentState::Stopped] {
        assert_eq!(ExperimentState::parse(state.as_str()), Some(state));
    }
    assert_eq!(ExperimentState::parse("paused"), None);
    assert_eq!(CounterKind::Exposure.as_str(), "exposure");
    assert_eq!(CounterKind::Conversion.as_str(), "conversion");
}

#[test]
fn roles_grant_in_order() {
    assert!(Role::Owner.can_administer() && Role::Owner.can_write());
    assert!(Role::Admin.can_administer() && Role::Admin.can_write());
    assert!(!Role::Member.can_administer() && Role::Member.can_write());
    assert!(!Role::Viewer.can_administer() && !Role::Viewer.can_write());
}

#[test]
fn an_audit_record_carries_what_was_given() {
    let entry = NewAuditEntry::new(id(1), (Some(id(2)), "a@b.c"), "flag.created", "flag", "checkout")
        .in_environment(id(3))
        .changing(Some(Err(bad_json())), Some(Ok(serde_json::Value::Bool(true))));
    assert_eq!(entry.organization_id, id(1));
    assert_eq!(entry.actor_user_id, Some(id(2)));
    assert_eq!(entry.actor_email, "a@b.c");
    assert_eq!(entry.action, "flag.created");
    assert_eq!(entry.resource_type, "flag");
    assert_eq!(entry.resource_id, "checkout");
    assert_eq!(entry.environment_id, Some(id(3)));
    assert_eq!(entry.before, None);
    assert_eq!(entry.after, Some(serde_json::Value::Bool(true)));
}

// ------------------------------------------------------------------- accounts

#[test]
fn addresses_are_normalized() {
    assert_eq!(normalize_email("  Ada@Example.COM\n"), "ada@example.com");
    assert_eq!(normalize_email("\u{c4}@x"), "\u{e4}@x");
}

#[test]
fn case_and_blanks_around_an_address_make_no_difference() {
    let stored = match organization_inserted(Ok(organization()), "acme", "Ada@X") {
        Ok((_, owner)) => owner.email,
        Err(error) => panic!("{error:?}"),
    };
    for asked in ["ada@x", " ADA@X\t", "\u{3000}aDa@x"] {
        assert_eq!(normalize_email(asked), stored);
    }
    assert_ne!(normalize_email("a da@x"), stored);
}

#[test]
fn signing_up_makes_an_owner() {
    let (org, owner) = match organization_inserted(Ok(organization()), "acme", " Ada@X ") {
        Ok(next) => next,
        Err(error) => panic!("{error:?}"),
    };
    assert_eq!(owner.organization_id, id(2));
    assert_eq!(owner.email, "ada@x");
    assert_eq!(owner.role, Role::Owner);
    let (org, user) = match create_organization_with_owner(org, Ok(user_row("owner")), &owner) {
        Ok(created) => created,
        Err(error) => panic!("{error:?}"),
    };
    assert_eq!(org.slug, "acme");
    assert_eq!(user.role, Role::Owner);
}

#[test]
fn a_taken_slug_or_address_is_a_conflict() {
    assert!(matches!(
        organization_inserted(Err(refused("23505")), "acme", "a@b"),
        Err(StorageError::Conflict { entity: "organization", key }) if key == "acme"
    ));
    let owner = match organization_inserted(Ok(organization()), "acme", "A@b") {
        Ok((_, owner)) => owner,
        Err(error) => panic!("{error:?}"),
    };
    assert!(matches!(
        create_organization_with_owner(organization(), Err(refused("23505")), &owner),
        Err(StorageError::Conflict { entity: "user", key }) if key == "a@b"
    ));
}

#[test]
fn users_are_found_or_not() {
    assert_eq!(build_user(user_row("admin")).role, Role::Admin);
    assert_eq!(build_user(user_row("janitor")).role, Role::Viewer);
    assert!(matches!(find_user(None), Err(StorageError::NotFound { entity: "user" })));
    assert!(matches!(find_user(Some(user_row("member"))), Ok(user) if user.role == Role::Member));
    assert!(find_by_email(None).is_none());
    let found = find_by_email(Some((user_row("owner"), "hash".to_owned())));
    assert!(matches!(found, Some(found) if found.password_hash == "hash"));
    assert!(matches!(
        find_organization(None),
        Err(StorageError::NotFound { entity: "organization" })
    ));
}

// ------------------------------------------------------------------- api keys

fn key_row(scope: &str) -> ApiKeyRow {
    ApiKeyRow {
        id: id(1),
        environment_id: id(9),
        name: "svc".to_owned(),
        prefix: "ff_".to_owned(),
        scope: scope.to_owned(),
        created_at: at(0),
        last_used_at: None,
        revoked_at: None,
    }
}

#[test]
fn api_keys_are_created_listed_and_revoked() {
    assert!(matches!(
        api_keys::create(Ok(key_row("client")), "svc"),
        Ok(key) if key.scope == KeyScope::Client
    ));
    assert!(matches!(
        api_keys::create(Err(refused("23503")), "svc"),
        Err(StorageError::NotFound { entity: "api key" })
    ));
    let listed = api_keys::list(vec![key_row("server"), key_row("client")]);
    assert_eq!(listed.len(), 2);
    assert_eq!(listed[1].scope, KeyScope::Client);
    assert!(api_keys::revoke(1).is_ok());
    assert!(matches!(
        api_keys::revoke(0),
        Err(StorageError::NotFound { entity: "api key" })
    ));
}

#[test]
fn a_presented_key_resolves_to_its_tenant() {
    assert!(api_keys::resolve(None).is_none());
    let identity = api_keys::resolve(Some(KeyIdentityRow {
        id: id(1),
        environment_id: id(2),
        scope: "client".to_owned(),
        project_id: id(3),
        organization_id: id(4),
    }));
    match identity {
        Some(identity) => {
            assert_eq!(identity.api_key_id, id(1));
            assert_eq!(identity.environment_id, id(2));
            assert_eq!(identity.project_id, id(3));
            assert_eq!(identity.organization_id, id(4));
            assert_eq!(identity.scope, KeyScope::Client);
        }
        None => panic!("nothing resolved"),
    }
}

// ---------------------------------------------------------------------- audit

#[test]
fn a_page_is_never_empty_nor_endless() {
    assert_eq!(page_limit(i64::MIN), 1);
    assert_eq!(page_limit(0), 1);
    assert_eq!(page_limit(40), 40);
    assert_eq!(page_limit(200), MAX_PAGE_SIZE);
    assert_eq!(page_limit(201), 200);
}

// --------------------------------------------------------------------- notify

#[test]
fn a_notification_names_an_environment() {
    assert_eq!(
        next_changed("00000000-0000-0000-0000-0000000000ff"),
        Some(Uuid { bits: 255 })
    );
    assert_eq!(next_changed("something else"), None);
}

#[test]
fn identifiers_round_trip() {
    let text = id(255).text();
    assert_eq!(text, "00000000-0000-0000-0000-0000000000ff");
    assert_eq!(Uuid::parse(&text), Some(id(255)));
    assert_eq!(new_uuid(Some(text)), id(255));
    assert_eq!(new_uuid(Some("no".to_owned())), Uuid::nil());
    assert_eq!(new_uuid(None), Uuid::nil());
}

// ----------------------------------------------------------- projects, seeding

#[test]
fn projects_and_environments_report_their_own_names() {
    assert!(matches!(
        projects::create_project(Err(refused("23505")), "p"),
        Err(StorageError::Conflict { entity: "project", key }) if key == "p"
    ));
    assert!(matches!(
        projects::create_environment(Err(refused("23503")), "e"),
        Err(StorageError::NotFound { entity: "environment" })
    ));
    assert!(matches!(
        projects::find_project(None),
        Err(StorageError::NotFound { entity: "project" })
    ));
    assert!(matches!(
        projects::find_environment(None),
        Err(StorageError::NotFound { entity: "environment" })
    ));
    assert!(projects::delete_project(2).is_ok());
    assert!(matches!(
        projects::delete_project(0),
        Err(StorageError::NotFound { entity: "project" })
    ));
    assert!(projects::delete_environment(1).is_ok());
    assert!(matches!(
        projects::delete_environment(0),
        Err(StorageError::NotFound { entity: "environment" })
    ));
}

#[test]
fn the_default_variant_is_off_or_the_first() {
    let list = |keys: &[&str]| keys.iter().map(|k| (*k).to_owned()).collect::<Vec<String>>();
    assert_eq!(choose_default(&list(&["on", "off"])), Some("off".to_owned()));
    assert_eq!(choose_default(&list(&["blue", "red"])), Some("blue".to_owned()));
    assert_eq!(choose_default(&list(&[])), None);
}

#[test]
fn a_new_environment_gets_every_flag_switched_off() {
    let flags = vec![
        ProjectFlag { flag_id: id(1), variant_keys: vec!["on".to_owned(), "off".to_owned()] },
        ProjectFlag { flag_id: id(2), variant_keys: vec!["bl\"ue".to_owned()] },
        ProjectFlag { flag_id: id(3), variant_keys: Vec::new() },
    ];
    let existing = |environment: u128, created: i64, off: &str| ExistingConfig {
        flag_id: id(1),
        environment_id: id(environment),
        environment_created_at: at(created),
        off_variant: off.to_owned(),
        fallthrough: format!("{{\"of\":\"{off}\"}}"),
    };
    let configs =
        vec![existing(7, 20, "newer"), existing(6, 10, "oldest"), existing(8, 10, "same moment")];
    let made = seed_environment(id(9), &flags, &configs);
    assert_eq!(made.len(), 3);
    for (seed, flag) in made.iter().zip(&flags) {
        assert_eq!(seed.flag_id, flag.flag_id);
        assert_eq!(seed.environment_id, id(9));
        assert!(!seed.enabled);
        assert!(seed.rules.is_empty());
    }
    assert_eq!(made[0].off_variant.as_deref(), Some("oldest"));
    assert_eq!(made[0].fallthrough, "{\"of\":\"oldest\"}");
    assert_eq!(made[1].off_variant.as_deref(), Some("bl\"ue"));
    assert_eq!(made[1].fallthrough, "{\"kind\":\"fixed\",\"variant\":\"bl\\\"ue\"}");
    assert_eq!(made[2].off_variant, None);
    assert_eq!(made[2].fallthrough, "{\"kind\":\"fixed\",\"variant\":null}");
}

#[test]
fn a_new_flag_is_seeded_everywhere() {
    let made = seed_flag(id(1), &vec![id(8), id(9)], "off", "{\"kind\":\"fixed\"}");
    assert_eq!(made.len(), 2);
    assert_eq!(made[0].environment_id, id(8));
    assert_eq!(made[1].environment_id, id(9));
    for seed in &made {
        assert_eq!(seed.flag_id, id(1));
        assert!(!seed.enabled);
        assert!(seed.rules.is_empty());
        assert_eq!(seed.off_variant.as_deref(), Some("off"));
        assert_eq!(seed.fallthrough, "{\"kind\":\"fixed\"}");
    }
}

// ---------------------------------------------------------------------- flags

#[test]
fn a_flag_is_built_from_its_row() {
    match flags::create_flag(flag_row(Ok(vec![variant("on")]))) {
        Ok(flag) => {
            assert_eq!(flag.key, "checkout");
            assert_eq!(flag.variants, vec![variant("on")]);
        }
        Err(error) => panic!("{error:?}"),
    }
    assert!(matches!(
        flags::build_flag(flag_row(Err(bad_json()))),
        Err(StorageError::Malformed { entity: "flag", .. })
    ));
    assert!(matches!(
        flags::flag_inserted(Err(refused("23505")), "checkout"),
        Err(StorageError::Conflict { entity: "flag", key }) if key == "checkout"
    ));
    assert!(matches!(
        flags::find_flag(None),
        Err(StorageError::NotFound { entity: "flag" })
    ));
    assert!(matches!(
        flags::list_flags(vec![flag_row(Ok(Vec::new())), flag_row(Err(bad_json()))]),
        Err(StorageError::Malformed { entity: "flag", .. })
    ));
    assert!(matches!(
        flags::list_flags(vec![flag_row(Ok(Vec::new()))]),
        Ok(list) if list.len() == 1
    ));
    assert!(flags::delete_flag(1).is_ok());
    assert!(flags::delete_flag(0).is_err());
}

#[test]
fn an_update_is_reported_under_the_identifier() {
    assert!(matches!(
        flags::update_flag(Err(refused("23505")), id(255)),
        Err(StorageError::Conflict { entity: "flag", key })
            if key == "00000000-0000-0000-0000-0000000000ff"
    ));
    assert!(matches!(
        flags::update_flag(Ok(None), id(1)),
        Err(StorageError::NotFound { entity: "flag" })
    ));
    assert!(flags::update_flag(Ok(Some(flag_row(Ok(Vec::new())))), id(1)).is_ok());
}

#[test]
fn a_lost_write_is_a_version_conflict() {
    assert!(matches!(
        flags::upsert_config(Ok(None), id(1), Some(7)),
        Err(StorageError::VersionConflict { entity: "flag configuration", expected: 7 })
    ));
    assert!(matches!(
        flags::upsert_config(Ok(None), id(1), None),
        Err(StorageError::VersionConflict { entity: "flag configuration", expected: 0 })
    ));
    assert!(matches!(
        flags::upsert_config(Err(refused("23514")), id(1), None),
        Err(StorageError::Invalid { entity: "flag configuration" })
    ));
    assert!(matches!(
        flags::upsert_config(Ok(Some(config_row(Ok(fixed("on"))))), id(1), Some(3)),
        Ok(config) if config.version == 4
    ));
    assert!(matches!(
        flags::find_config(None),
        Err(StorageError::NotFound { entity: "flag configuration" })
    ));
    assert!(matches!(
        flags::find_config(Some(config_row(Err(bad_json())))),
        Err(StorageError::Malformed { entity: "flag configuration", .. })
    ));
    let mut row = config_row(Ok(fixed("on")));
    row.rules = Err(bad_json());
    assert!(matches!(
        flags::build_config(row),
        Err(StorageError::Malformed { entity: "flag configuration", .. })
    ));
}

// ------------------------------------------------------------------- segments

#[test]
fn a_segment_is_built_from_its_row() {
    match segments::find_segment(Some(segment_row(2))) {
        Ok(segment) => {
            assert_eq!(segment.included.list(), &vec!["a".to_owned(), "b".to_owned()]);
            let definition = segment.definition();
            assert_eq!(definition.key, "beta");
            assert_eq!(definition.version, 2);
        }
        Err(error) => panic!("{error:?}"),
    }
    assert!(matches!(
        segments::create_segment(Err(refused("23505")), "beta"),
        Err(StorageError::Conflict { entity: "segment", key }) if key == "beta"
    ));
    let mut broken = segment_row(1);
    broken.excluded = Err(bad_json());
    assert!(matches!(
        segments::list_segments(vec![segment_row(1), broken]),
        Err(StorageError::Malformed { entity: "segment", .. })
    ));
    assert!(matches!(
        segments::load_environment_segments(vec![segment_row(1), segment_row(5)]),
        Ok(made) if made.len() == 2 && made[1].version == 5
    ));
}

#[test]
fn a_segment_is_only_rewritten_at_the_version_that_was_read() {
    assert!(matches!(
        segments::check_segment(None, Some(1)),
        Err(StorageError::NotFound { entity: "segment" })
    ));
    assert!(matches!(
        segments::check_segment(Some(segment_row(2)), Some(1)),
        Err(StorageError::VersionConflict { entity: "segment", expected: 1 })
    ));
    assert!(matches!(segments::check_segment(Some(segment_row(2)), Some(2)), Ok(2)));
    assert!(matches!(segments::check_segment(Some(segment_row(2)), None), Ok(2)));
    assert!(matches!(
        segments::update_segment(Ok(None), "beta", None, 2),
        Err(StorageError::VersionConflict { entity: "segment", expected: 2 })
    ));
    assert!(matches!(
        segments::update_segment(Ok(None), "beta", Some(5), 2),
        Err(StorageError::VersionConflict { entity: "segment", expected: 5 })
    ));
    assert!(matches!(
        segments::update_segment(Ok(Some(segment_row(3))), "beta", Some(2), 2),
        Ok(segment) if segment.version == 3
    ));
}

#[test]
fn a_referenced_segment_is_not_deleted() {
    assert!(matches!(
        segments::check_unreferenced("beta", vec!["a".to_owned()]),
        Err(StorageError::InUse { entity: "segment", key, referenced_by })
            if key == "beta" && referenced_by == vec!["a".to_owned()]
    ));
    assert!(segments::check_unreferenced("beta", Vec::new()).is_ok());
    assert!(segments::delete_segment(1).is_ok());
    assert!(matches!(
        segments::delete_segment(0),
        Err(StorageError::NotFound { entity: "segment" })
    ));
}

#[test]
fn references_are_looked_for_on_both_sides() {
    let (any_of, none_of) = segments::referencing_flags("say \"hi\"");
    assert_eq!(any_of, "[{\"segments\":{\"any_of\":[\"say \\\"hi\\\"\"]}}]");
    assert_eq!(none_of, "[{\"segments\":{\"none_of\":[\"say \\\"hi\\\"\"]}}]");
    assert!(serde_json::from_str::<serde_json::Value>(&any_of).is_ok());
}

#[test]
fn segment_keys_are_a_set() {
    let list = vec!["b".to_owned(), "a".to_owned(), "b".to_owned()];
    assert_eq!(segments::segment_keys(&list).list(), &vec!["a".to_owned(), "b".to_owned()]);
}

// ---------------------------------------------------------------- experiments

#[test]
fn an_experiment_is_built_from_its_row() {
    match experiments::find_experiment(Some(experiment_row("running"))) {
        Ok(experiment) => {
            assert_eq!(experiment.state, ExperimentState::Running);
            let spec = experiment.spec();
            assert_eq!(spec.key, "cta");
            assert_eq!(spec.flag_key, "checkout");
            assert_eq!(spec.metric_key, "order");
            assert_eq!(spec.control_variant, "off");
        }
        Err(error) => panic!("{error:?}"),
    }
    assert!(matches!(
        experiments::build(experiment_row("paused")),
        Err(StorageError::Invalid { entity: "experiment state" })
    ));
    let mut broken = experiment_row("paused");
    broken.variants = Err(bad_json());
    assert!(matches!(
        experiments::build(broken),
        Err(StorageError::Malformed { entity: "experiment flag variants", .. })
    ));
    assert!(matches!(
        experiments::find_experiment(None),
        Err(StorageError::NotFound { entity: "experiment" })
    ));
    assert!(matches!(
        experiments::list_experiments(vec![experiment_row("draft"), experiment_row("odd")]),
        Err(StorageError::Invalid { entity: "experiment state" })
    ));
    assert!(matches!(
        experiments::create_experiment(Err(refused("23505")), "cta", None),
        Err(StorageError::Conflict { entity: "experiment", key }) if key == "cta"
    ));
    assert!(experiments::create_experiment(Ok(()), "cta", Some(experiment_row("draft"))).is_ok());
    assert!(matches!(
        experiments::update_experiment(Ok(0), "cta", Some(experiment_row("draft"))),
        Err(StorageError::NotFound { entity: "experiment" })
    ));
    assert!(experiments::update_experiment(Ok(1), "cta", Some(experiment_row("draft"))).is_ok());
}

#[test]
fn only_a_draft_starts_and_only_what_runs_stops() {
    assert_eq!(Transition::Start.from(), ExperimentState::Draft);
    assert_eq!(Transition::Start.to(), ExperimentState::Running);
    assert_eq!(Transition::Stop.from(), ExperimentState::Running);
    assert_eq!(Transition::Stop.to(), ExperimentState::Stopped);
    assert!(matches!(
        experiments::start_experiment(1, "cta", Some(experiment_row("running"))),
        Ok(experiment) if experiment.state == ExperimentState::Running
    ));
    let refused = experiments::start_experiment(0, "cta", Some(experiment_row("stopped")));
    match refused {
        Err(StorageError::WrongState { entity, key, actual, needed }) => {
            assert_eq!((entity, key.as_str(), actual, needed), ("experiment", "cta", "stopped", "draft"));
        }
        other => panic!("{other:?}"),
    }
    assert!(matches!(
        experiments::stop_experiment(0, "cta", Some(experiment_row("draft"))),
        Err(StorageError::WrongState { actual: "draft", needed: "running", .. })
    ));
    assert!(matches!(
        experiments::stop_experiment(0, "cta", None),
        Err(StorageError::NotFound { entity: "experiment" })
    ));
}

#[test]
fn a_running_experiment_is_not_deleted() {
    assert!(experiments::delete_experiment(1, "cta", None).is_ok());
    assert!(matches!(
        experiments::delete_experiment(0, "cta", Some(experiment_row("running"))),
        Err(StorageError::WrongState {
            actual: "running",
            needed: "stopped (or still a draft)",
            ..
        })
    ));
    assert!(matches!(
        experiments::delete_experiment(0, "cta", None),
        Err(StorageError::NotFound { entity: "experiment" })
    ));
    let error = StorageError::WrongState {
        entity: "experiment",
        key: "cta".to_owned(),
        actual: "running",
        needed: "draft",
    };
    assert_eq!(error.message(), "experiment `cta` is running, and has to be draft");
}

#[test]
fn references_to_a_flag_name_the_environment() {
    let rows = vec![("prod".to_owned(), "cta".to_owned()), ("dev".to_owned(), "b".to_owned())];
    assert_eq!(
        experiments::experiments_referencing_flag(&rows),
        vec!["prod/cta".to_owned(), "dev/b".to_owned()]
    );
}

#[test]
fn increments_of_one_counter_are_collapsed() {
    let deltas = vec![
        delta("a", CounterKind::Exposure, 3_600, 2),
        delta("a", CounterKind::Exposure, 7_199, 3),
        delta("a", CounterKind::Exposure, 7_200, 5),
        delta("a", CounterKind::Conversion, 3_600, 7),
        delta("b", CounterKind::Exposure, 3_600, 11),
    ];
    let columns = match ingest_counters(&deltas) {
        Ok(columns) => columns,
        Err(error) => panic!("{error:?}"),
    };
    assert_eq!(columns.keys.len(), 4);
    let mut rows: Vec<(String, String, i64, i64)> = Vec::new();
    for i in 0..4 {
        assert_eq!(columns.variants[i], "on");
        rows.push((
            columns.keys[i].clone(),
            columns.kinds[i].clone(),
            columns.hours[i].seconds,
            columns.counts[i],
        ));
    }
    rows.sort();
    assert_eq!(
        rows,
        vec![
            ("a".to_owned(), "conversion".to_owned(), 3_600, 7),
            ("a".to_owned(), "exposure".to_owned(), 3_600, 5),
            ("a".to_owned(), "exposure".to_owned(), 7_200, 5),
            ("b".to_owned(), "exposure".to_owned(), 3_600, 11),
        ]
    );
    assert_eq!(columns.counts.iter().sum::<i64>(), 28);
    match ingest_batch(&deltas) {
        Some(Ok(again)) => assert_eq!(again.counts, columns.counts),
        other => panic!("{other:?}"),
    }
}

/// What an outcome adds to each counter, by key, kind and hour.
fn totals(deltas: &Vec<CounterDelta>) -> Vec<(String, String, i64, i64)> {
    let columns = match ingest_batch(deltas) {
        Some(Ok(columns)) => columns,
        other => panic!("{other:?}"),
    };
    let mut rows: Vec<(String, String, i64, i64)> = Vec::new();
    for i in 0..columns.keys.len() {
        rows.push((
            columns.keys[i].clone(),
            columns.kinds[i].clone(),
            columns.hours[i].seconds,
            columns.counts[i],
        ));
    }
    rows.sort();
    rows
}

#[test]
fn the_order_of_a_batch_does_not_matter() {
    let deltas = vec![
        delta("a", CounterKind::Exposure, 0, 2),
        delta("b", CounterKind::Exposure, 0, 3),
        delta("a", CounterKind::Exposure, 10, 5),
    ];
    let shuffled = vec![
        delta("a", CounterKind::Exposure, 10, 5),
        delta("a", CounterKind::Exposure, 0, 2),
        delta("b", CounterKind::Exposure, 0, 3),
    ];
    let expected = vec![
        ("a".to_owned(), "exposure".to_owned(), 0, 7),
        ("b".to_owned(), "exposure".to_owned(), 0, 3),
    ];
    assert_eq!(totals(&deltas), expected);
    assert_eq!(totals(&shuffled), expected);
}

#[test]
fn a_batch_may_be_cut_in_two() {
    let first = vec![delta("a", CounterKind::Exposure, 0, 2)];
    let second = vec![delta("a", CounterKind::Exposure, 1, 5)];
    let whole = vec![
        delta("a", CounterKind::Exposure, 0, 2),
        delta("a", CounterKind::Exposure, 1, 5),
    ];
    assert_eq!(totals(&first)[0].3 + totals(&second)[0].3, totals(&whole)[0].3);
    assert_eq!(totals(&whole)[0].3, 7);
}

#[test]
fn a_batch_of_the_largest_increments_is_taken() {
    let deltas = vec![
        delta("a", CounterKind::Exposure, 0, u32::MAX),
        delta("a", CounterKind::Exposure, 1, u32::MAX),
        delta("a", CounterKind::Conversion, 0, u32::MAX),
    ];
    assert_eq!(
        totals(&deltas),
        vec![
            ("a".to_owned(), "conversion".to_owned(), 0, 4_294_967_295),
            ("a".to_owned(), "exposure".to_owned(), 0, 8_589_934_590),
        ]
    );
}

#[test]
fn only_increments_of_running_experiments_are_accepted() {
    let deltas = vec![
        delta("a", CounterKind::Exposure, 0, 2),
        delta("a", CounterKind::Exposure, 1, 5),
        delta("b", CounterKind::Exposure, 0, 3),
        delta("c", CounterKind::Conversion, 0, 3),
    ];
    let running = vec!["c".to_owned(), "a".to_owned(), "elsewhere".to_owned()];
    assert_eq!(experiments::accepted(&deltas, &running), 3);
    assert_eq!(experiments::accepted(&deltas, &Vec::new()), 0);
    assert_eq!(experiments::accepted(&Vec::new(), &running), 0);
}

#[test]
fn an_increment_outside_the_calendar_is_refused() {
    let deltas = vec![delta("a", CounterKind::Exposure, i64::MAX, 1)];
    assert!(matches!(
        ingest_counters(&deltas),
        Err(StorageError::Invalid { entity: "counter timestamp" })
    ));
    assert!(matches!(ingest_counters(&Vec::new()), Ok(columns) if columns.keys.is_empty()));
}

#[test]
fn hours_start_on_the_hour() {
    let hour = |seconds| hour_of(Timestamp { seconds, nanos: 5 });
    assert_eq!(hour(3_600), Some(at(3_600)));
    assert_eq!(hour(7_199), Some(at(3_600)));
    assert_eq!(hour(-1), Some(at(-3_600)));
    assert_eq!(hour(20_000_000_000), None);
}

#[test]
fn counts_are_summed_up_by_variant() {
    let row = |variant: &str, kind: &str, total: i64| CountRow {
        variant: variant.to_owned(),
        kind: kind.to_owned(),
        total,
    };
    let counts = experiment_counts(&vec![
        row("off", "exposure", 10),
        row("on", "conversion", 4),
        row("off", "conversion", 3),
        row("on", "exposure", -1),
    ]);
    assert_eq!(counts.len(), 2);
    assert_eq!(counts[0].variant, "off");
    assert_eq!((counts[0].exposures, counts[0].conversions), (10, 3));
    assert_eq!(counts[1].variant, "on");
    assert_eq!((counts[1].exposures, counts[1].conversions), (0, 4));
}

// ------------------------------------------------------------------- snapshot

fn configured(variants: bool, fallthrough: bool, rules: bool) -> ConfiguredFlagRow {
    ConfiguredFlagRow {
        key: "checkout".to_owned(),
        variants: if variants { Ok(vec![variant("on")]) } else { Err(bad_json()) },
        enabled: true,
        off_variant: "off".to_owned(),
        fallthrough: if fallthrough {
            Ok(Distribution::Rollout {
                weights: vec![WeightedVariant { variant: "on".to_owned(), weight: 100_000 }],
                bucket_by: None,
            })
        } else {
            Err(bad_json())
        },
        rules: if rules { Ok(Vec::new()) } else { Err(bad_json()) },
        version: 3,
    }
}

fn environment_row() -> Option<EnvironmentRow> {
    Some(EnvironmentRow { key: "prod".to_owned(), salt: "pepper".to_owned() })
}

#[test]
fn a_snapshot_holds_the_whole_environment() {
    match snapshot::load(id(9), environment_row(), vec![configured(true, true, true)], at(5)) {
        Ok(snapshot) => {
            assert_eq!(snapshot.environment_id, id(9));
            assert_eq!(snapshot.environment_key, "prod");
            assert_eq!(snapshot.salt, "pepper");
            assert_eq!(snapshot.generated_at, at(5));
            assert_eq!(snapshot.flags.len(), 1);
            assert_eq!(snapshot.flags[0].version, 3);
        }
        Err(error) => panic!("{error:?}"),
    }
}

#[test]
fn a_snapshot_fails_on_the_first_flag_that_does_not_decode() {
    let load = |row| snapshot::load(id(9), environment_row(), vec![row], at(5));
    assert!(matches!(
        load(configured(false, false, false)),
        Err(StorageError::Malformed { entity: "flag variants", .. })
    ));
    assert!(matches!(
        load(configured(true, false, false)),
        Err(StorageError::Malformed { entity: "flag fallthrough", .. })
    ));
    assert!(matches!(
        load(configured(true, true, false)),
        Err(StorageError::Malformed { entity: "flag rules", .. })
    ));
    assert!(matches!(
        snapshot::load(id(9), None, Vec::new(), at(5)),
        Err(StorageError::NotFound { entity: "environment" })
    ));
    assert!(matches!(
        snapshot::resolve_environment(None),
        Err(StorageError::NotFound { entity: "environment" })
    ));
    assert!(matches!(snapshot::resolve_environment(Some(id(9))), Ok(found) if found == id(9)));
}
