//! The pages: what happens on them, and what they say.

use flagforge::domain::{
    AttributeValue, Comparison, Condition, Distribution, Number, Operator, Rule, SegmentRollout,
    SegmentRule, Variant, VariantResult, WeightedVariant, TOTAL_WEIGHT,
};
use flagforge::ids::Uuid;
use flagforge::keyset::KeySet;
use flagforge::time::Timestamp;
use flagforge::web::api::models::{
    ApiKey, AuditEntry, AuditPage, ConfiguredFlag, CreatedKey, Environment, Experiment,
    ExperimentResults, Flag, FlagConfig, Me, Organization, Project, Segment, SegmentWithUsage,
    Session, User,
};
use flagforge::web::api::{ApiError, Body, Load, Method};
use flagforge::web::pages::audit::{badge_for, has_diff, render_json, warns, Audit};
use flagforge::web::pages::conditions::{
    add_condition, description_from, edit_condition, joiner, operator_from, operator_key,
    operators, parse_values, remove_condition, values_text, ConditionEdit,
};
use flagforge::web::pages::experiments;
use flagforge::web::pages::experiments::{
    arm_color, deleting, has_excess, meter_caption, meter_label, no_data, offers, shown_day, state_badge,
    Action, CreateExperiment, Deleting, Experiments, Verdict,
};
use flagforge::web::pages::flag;
use flagforge::web::pages::flag::{shown_variant, switch_words, DangerZone, FlagDetail, Screen};
use flagforge::web::pages::forms::KeyForm;
use flagforge::web::pages::keys;
use flagforge::web::pages::keys::{CreateKey, KeyStatus, Keys};
use flagforge::web::pages::login::{Login, Mode};
use flagforge::web::pages::preview;
use flagforge::web::pages::preview::{
    attributes_in, served, simulated_subject, tally, Reason, PREVIEW_SALT, SIMULATED_SUBJECTS,
};
use flagforge::web::pages::project;
use flagforge::web::pages::project::{
    describe_targeting, enabled_badge, flag_href, percent_text, ProjectDetail, Reload,
};
use flagforge::web::pages::projects;
use flagforge::web::pages::projects::{slugify, Projects};
use flagforge::web::pages::rollout::{
    even_split, has_slider, is_balanced, part_class, set_share, set_split, shares_total,
};
use flagforge::web::pages::segments;
use flagforge::web::pages::segments::{
    describe, from_lines, rollout_hint, shown_share, to_lines, Segments,
};
use flagforge::web::pages::{can_write, choose_environment, load_environments, Next};
use flagforge::web::toast::Level;

// -------------------------------------------------------------------- helpers

fn error(status: u16, title: &str) -> ApiError {
    ApiError { status, kind: "k".to_owned(), title: title.to_owned(), issues: Vec::new() }
}

fn me(role: &str) -> Me {
    Me {
        user: user(role),
        organization: Organization {
            id: "o".to_owned(),
            name: "Acme".to_owned(),
            slug: "acme".to_owned(),
        },
    }
}

fn user(role: &str) -> User {
    User {
        id: "u".to_owned(),
        organization_id: "o".to_owned(),
        email: "ada@x".to_owned(),
        role: role.to_owned(),
        created_at: String::new(),
    }
}

fn environment(key: &str, is_production: bool) -> Environment {
    Environment { id: key.to_owned(), key: key.to_owned(), name: key.to_owned(), is_production }
}

fn variant(key: &str) -> Variant {
    Variant { key: key.to_owned(), value: "true".to_owned() }
}

fn variants(keys: &[&str]) -> Vec<Variant> {
    keys.iter().map(|key| variant(key)).collect()
}

fn weight(variant: &str, weight: u32) -> WeightedVariant {
    WeightedVariant { variant: variant.to_owned(), weight }
}

fn fixed(variant: &str) -> Distribution {
    Distribution::Fixed { variant: variant.to_owned() }
}

fn rollout(weights: Vec<WeightedVariant>) -> Distribution {
    Distribution::Rollout { weights, bucket_by: Some("account".to_owned()) }
}

fn flag_of(key: &str, name: &str) -> Flag {
    Flag {
        id: key.to_owned(),
        key: key.to_owned(),
        name: name.to_owned(),
        description: None,
        variants: variants(&["on", "off"]),
        archived: false,
        updated_at: String::new(),
    }
}

fn config(version: i64) -> FlagConfig {
    FlagConfig {
        flag_id: "f".to_owned(),
        environment_id: "e".to_owned(),
        enabled: false,
        off_variant: "off".to_owned(),
        fallthrough: fixed("on"),
        rules: Vec::new(),
        version,
        updated_at: String::new(),
    }
}

fn row(key: &str, name: &str) -> ConfiguredFlag {
    ConfiguredFlag { flag: flag_of(key, name), config: config(1) }
}

fn number(text: &str) -> Option<u64> {
    text.parse::<f64>().ok().map(f64::to_bits)
}

fn id(bits: u128) -> Uuid {
    Uuid { bits }
}

fn draft() -> flag::Draft {
    flag::Draft::from(config(3))
}

fn segment(included: &[&str], rules: usize, excluded: &[&str]) -> Segment {
    let set = |keys: &[&str]| {
        KeySet::of(&keys.iter().map(|k| (*k).to_owned()).collect::<Vec<String>>())
    };
    Segment {
        id: "s".to_owned(),
        key: "beta".to_owned(),
        name: "Beta".to_owned(),
        description: None,
        included: set(included),
        excluded: set(excluded),
        rules: (0..rules).map(|i| SegmentRule::new(id(i as u128), Vec::new())).collect(),
        version: 4,
        updated_at: String::new(),
    }
}

fn experiment(key: &str, state: &str) -> Experiment {
    Experiment {
        id: key.to_owned(),
        key: key.to_owned(),
        name: key.to_owned(),
        description: None,
        flag_key: "checkout".to_owned(),
        variants: variants(&["on", "off"]),
        metric_key: "order".to_owned(),
        control_variant: "off".to_owned(),
        state: state.to_owned(),
        started_at: None,
        stopped_at: None,
        version: 1,
    }
}

fn arm(variant: &str, exposures: u64, conversions: u64) -> VariantResult {
    VariantResult {
        variant: variant.to_owned(),
        exposures,
        conversions,
        rate: None,
        interval: None,
        vs_control: None,
    }
}

// ------------------------------------------------------------------- shared

#[test]
fn pages_start_with_production_or_the_first_environment() {
    let list = vec![environment("dev", false), environment("prod", true), environment("eu", true)];
    assert_eq!(choose_environment(&list), Some("prod".to_owned()));
    let list = vec![environment("dev", false), environment("staging", false)];
    assert_eq!(choose_environment(&list), Some("dev".to_owned()));
    assert_eq!(choose_environment(&Vec::new()), None);
    assert!(load_environments(None, "p").is_none());
    assert!(matches!(
        load_environments(Some("t"), "p"),
        Some(call) if call.path == "/projects/p/environments"
    ));
    assert!(can_write(Some(&me("member"))));
    assert!(!can_write(Some(&me("viewer"))));
    assert!(!can_write(None));
}

#[test]
fn suggested_keys_are_acceptable() {
    assert_eq!(slugify("New Checkout (v2)!"), "new-checkout-v2");
    assert_eq!(slugify("  --A--b  "), "a-b");
    assert_eq!(slugify("\u{c9}t\u{e9}"), "t");
    assert_eq!(slugify("!!!"), "");
    assert_eq!(slugify(&slugify("A & B")), slugify("A & B"));
}

#[test]
fn the_key_follows_the_name_until_it_is_edited() {
    let mut form = KeyForm::new();
    form.name_typed("My Flag".to_owned());
    assert_eq!(form.key, "my-flag");
    form.key_typed("mine".to_owned());
    form.name_typed("Another".to_owned());
    assert_eq!((form.name.as_str(), form.key.as_str()), ("Another", "mine"));
    assert!(form.begin());
    assert!(!form.begin());
    form.finish();
    assert!(form.begin());
}

// ---------------------------------------------------------------------- login

#[test]
fn signing_in_sends_one_request_at_a_time() {
    let mut page = Login::new();
    page.email = "a@b".to_owned();
    page.password = "correct horse".to_owned();
    match page.submit() {
        Some(call) => {
            assert_eq!(call.path, "/auth/login");
            assert!(matches!(call.body, Body::Login(body) if body.email == "a@b"));
        }
        None => panic!("nothing sent"),
    }
    assert!(page.submit().is_none());
    assert_eq!(page.submitted(Err(error(401, "wrong password"))), None);
    assert_eq!(page.error.as_deref(), Some("wrong password"));
    assert!(!page.busy);
    assert_eq!(page.submit_label(), "Sign in");
    assert_eq!(page.autocomplete(), "current-password");
}

#[test]
fn signing_up_sends_the_organization_too() {
    let mut page = Login::new();
    page.error = Some("old".to_owned());
    page.choose_mode(Mode::SignUp);
    assert_eq!(page.error, None);
    assert_eq!(page.submit_label(), "Create organization");
    assert_eq!(page.autocomplete(), "new-password");
    page.organization = "Acme".to_owned();
    match page.submit() {
        Some(call) => {
            assert_eq!(call.path, "/auth/register");
            assert!(matches!(call.body, Body::Register(body) if body.organization_name == "Acme"));
        }
        None => panic!("nothing sent"),
    }
    let session = Session { token: "t".to_owned(), expires_in: 60, user: user("owner") };
    assert_eq!(page.submitted(Ok(session)), Some("t".to_owned()));
}

// ---------------------------------------------------------------------- audit

fn entry(id: i64) -> AuditEntry {
    AuditEntry {
        id,
        actor_email: "a@b".to_owned(),
        action: "flag.created".to_owned(),
        resource_type: "flag".to_owned(),
        resource_id: "f".to_owned(),
        before: None,
        after: None,
        created_at: String::new(),
    }
}

#[test]
fn older_entries_go_behind_the_newer_ones() {
    let mut page = Audit::new();
    assert!(page.load_first(None).is_none());
    assert!(matches!(
        page.load_first(Some("t")),
        Some(call) if call.path == "/audit?limit=40"
    ));
    page.first_loaded(Ok(AuditPage { entries: vec![entry(9), entry(8)], next_cursor: Some(8) }));
    assert!(matches!(
        page.load_more(Some("t")),
        Some(call) if call.path == "/audit?limit=40&before_id=8"
    ));
    assert!(page.load_more(Some("t")).is_none());
    page.more_loaded(Err(error(500, "x")));
    assert_eq!(page.cursor, Some(8));
    assert!(page.load_more(Some("t")).is_some());
    page.more_loaded(Ok(AuditPage { entries: vec![entry(7)], next_cursor: None }));
    match &page.entries {
        Load::Ready(list) => {
            assert_eq!(list.iter().map(|e| e.id).collect::<Vec<_>>(), vec![9, 8, 7]);
        }
        other => panic!("{other:?}"),
    }
    assert!(page.load_more(Some("t")).is_none());
}

#[test]
fn one_entry_is_open_at_a_time() {
    let mut page = Audit::new();
    page.toggle(3);
    assert!(page.is_open(3));
    page.toggle(4);
    assert!(!page.is_open(3) && page.is_open(4));
    page.toggle(4);
    assert_eq!(page.expanded, None);
}

#[test]
fn entries_are_coloured_and_written_out() {
    assert_eq!(badge_for("flag.deleted"), "badge badge--danger");
    assert_eq!(badge_for("key.revoked"), "badge badge--danger");
    assert_eq!(badge_for("flag.created"), "badge badge--on");
    assert_eq!(badge_for("flag.updated"), "badge badge--accent");
    assert_eq!(render_json(&None), "\u{2014}");
    let document = serde_json::from_str::<serde_json::Value>("{\"a\":[1]}").ok();
    assert_eq!(render_json(&document), "{\n  \"a\": [\n    1\n  ]\n}");
    let mut changed = entry(1);
    assert!(!has_diff(&changed));
    changed.after = document;
    assert!(has_diff(&changed));
    assert!(warns(None) && warns(Some(&me("member"))) && !warns(Some(&me("admin"))));
}

// ----------------------------------------------------------------- conditions

#[test]
fn operators_have_a_key_and_a_label_each() {
    let list = operators();
    assert_eq!(list.len(), 17);
    for operator in &list {
        assert_eq!(operator_from(operator_key(*operator)), Some(*operator));
    }
    assert_eq!(operator_key(Operator::GreaterThanOrEqual), "greater_than_or_equal");
    assert_eq!(Operator::GreaterThanOrEqual.label(), "\u{2265}");
    assert_eq!(Operator::In.label(), "is any of");
    assert_eq!(operator_from("equals"), None);
}

#[test]
fn listed_values_are_numbers_or_texts() {
    let values = parse_values(" pro , 1.5,, true ", number);
    assert_eq!(values.len(), 3);
    assert!(matches!(&values[0], AttributeValue::Text(text) if text == "pro"));
    assert!(matches!(&values[1], AttributeValue::Number(n) if n.bits == 1.5_f64.to_bits()));
    assert!(matches!(&values[2], AttributeValue::Text(text) if text == "true"));
    assert_eq!(
        values_text(&vec![Some("pro".to_owned()), None, Some("1.5".to_owned())]),
        "pro, 1.5"
    );
}

#[test]
fn conditions_are_edited_in_place() {
    let mut conditions: Vec<Condition> = Vec::new();
    add_condition(&mut conditions);
    assert_eq!(conditions[0].attribute, "country");
    assert_eq!(conditions[0].operator, Operator::In);
    assert!(matches!(&conditions[0].values[0], AttributeValue::Text(text) if text == "ES"));
    edit_condition(&mut conditions, 0, ConditionEdit::Attribute("plan".to_owned()));
    edit_condition(&mut conditions, 0, ConditionEdit::Operator("not_in".to_owned()));
    edit_condition(&mut conditions, 0, ConditionEdit::Operator("nonsense".to_owned()));
    edit_condition(&mut conditions, 0, ConditionEdit::Values(Vec::new()));
    edit_condition(&mut conditions, 7, ConditionEdit::Attribute("lost".to_owned()));
    assert_eq!(conditions[0].attribute, "plan");
    assert_eq!(conditions[0].operator, Operator::NotIn);
    assert!(conditions[0].values.is_empty());
    remove_condition(&mut conditions, 0);
    assert!(conditions.is_empty());
    assert_eq!(description_from("  "), None);
    assert_eq!(description_from(" a b "), Some("a b".to_owned()));
    assert_eq!((joiner(0), joiner(1)), ("If", "And"));
}

// -------------------------------------------------------------------- rollout

#[test]
fn an_even_split_is_always_whole() {
    let weights = even_split(&variants(&["a", "b", "c"]));
    assert_eq!(weights, vec![weight("a", 33_334), weight("b", 33_333), weight("c", 33_333)]);
    assert_eq!(shares_total(&weights), 100_000);
    assert!(is_balanced(&weights));
    assert!(even_split(&Vec::new()).is_empty());
    for count in 1..40 {
        let list: Vec<Variant> = (0..count).map(|i| variant(&i.to_string())).collect();
        assert_eq!(shares_total(&even_split(&list)), u64::from(TOTAL_WEIGHT));
    }
}

#[test]
fn the_slider_keeps_two_shares_whole() {
    let mut weights = vec![weight("on", 0), weight("off", 7)];
    assert!(has_slider(&weights) && !is_balanced(&weights));
    set_split(&mut weights, 25_000);
    assert_eq!(weights, vec![weight("on", 25_000), weight("off", 75_000)]);
    set_split(&mut weights, u32::MAX);
    assert_eq!(weights, vec![weight("on", 100_000), weight("off", 0)]);
    weights.push(weight("third", 1));
    set_split(&mut weights, 5);
    assert_eq!(weights[0].weight, 100_000);
    set_share(&mut weights, 2, 200_000);
    set_share(&mut weights, 9, 3);
    assert_eq!(weights[2].weight, 100_000);
    assert_eq!(shares_total(&weights), 200_000);
}

#[test]
fn variants_keep_their_colour() {
    let list = variants(&["a", "b", "c", "d", "e", "b"]);
    assert_eq!(part_class(&list, "b"), "dist__part dist__part--1");
    assert_eq!(part_class(&list, "e"), "dist__part dist__part--0");
    assert_eq!(part_class(&list, "zzz"), "dist__part dist__part--0");
}

// -------------------------------------------------------------------- preview

#[test]
fn attributes_are_read_line_by_line() {
    let attributes =
        attributes_in("plan = pro\r\nage=42\n\nbeta=true\nold=false\n=x\nnothing\na=b=c", number);
    let names: Vec<&str> = attributes.iter().map(|(name, _)| name.as_str()).collect();
    assert_eq!(names, vec!["plan", "age", "beta", "old", "a"]);
    assert!(matches!(&attributes[0].1, AttributeValue::Text(text) if text == "pro"));
    assert!(matches!(&attributes[1].1, AttributeValue::Number(n) if n.bits == 42_f64.to_bits()));
    assert!(matches!(&attributes[2].1, AttributeValue::Bool(true)));
    assert!(matches!(&attributes[3].1, AttributeValue::Bool(false)));
    assert!(matches!(&attributes[4].1, AttributeValue::Text(text) if text == "b=c"));
}

#[test]
fn outcomes_are_tallied_in_the_order_of_the_definition() {
    assert_eq!(SIMULATED_SUBJECTS, 2_000);
    assert_eq!(PREVIEW_SALT, "preview");
    assert_eq!(simulated_subject(17), "sim-17");
    let some = |name: &str| Some(name.to_owned());
    let outcomes = vec![
        some("zed"), some("off"), None, some("on"), some("off"), some("zed"), some("on"),
        some("off"),
    ];
    let shown = tally(&outcomes, &variants(&["on", "off", "on"]));
    assert_eq!(
        shown,
        vec![
            ("on".to_owned(), 2),
            ("off".to_owned(), 3),
            ("zed".to_owned(), 2),
            ("error".to_owned(), 1),
        ]
    );
    assert_eq!(shown.iter().map(|(_, count)| count).sum::<u32>(), 8);
}

#[test]
fn reasons_are_put_into_words() {
    assert_eq!(preview::verdict(&Reason::Off), ("badge badge--off", "flag is off".to_owned()));
    assert_eq!(
        preview::verdict(&Reason::TargetMatch { index: 0 }),
        ("badge badge--accent", "matched rule 1".to_owned())
    );
    assert_eq!(
        preview::verdict(&Reason::Fallthrough),
        ("badge badge--info", "no rule matched".to_owned())
    );
    assert_eq!(
        preview::verdict(&Reason::FlagNotFound),
        ("badge badge--danger", "flag not found".to_owned())
    );
    assert_eq!(
        preview::verdict(&Reason::Error { message: "odd".to_owned() }),
        ("badge badge--danger", "odd".to_owned())
    );
    assert_eq!(served(&None), "\u{2014}");
    assert_eq!(served(&Some("on".to_owned())), "on");
}

// ----------------------------------------------------------------------- flag

#[test]
fn a_draft_is_edited_rule_by_rule() {
    let mut draft = draft();
    draft.set_enabled(true);
    draft.add_rule(id(1), &Vec::new());
    assert!(draft.rules.is_empty());
    draft.add_rule(id(1), &variants(&["on", "off"]));
    draft.add_rule(id(2), &variants(&["on", "off"]));
    assert_eq!(draft.rules[0].conditions[0].attribute, "plan");
    assert_eq!(draft.rules[0].distribution, fixed("on"));
    draft.describe_rule(0, " paying ");
    assert_eq!(draft.rules[0].description.as_deref(), Some("paying"));
    draft.describe_rule(0, " ");
    assert_eq!(draft.rules[0].description, None);
    draft.serve(1, "off".to_owned());
    assert_eq!(draft.rules[1].distribution, fixed("off"));
    draft.add_condition(1);
    draft.edit_condition(1, 1, ConditionEdit::Operator("exists".to_owned()));
    assert_eq!(draft.rules[1].conditions[1].operator, Operator::Exists);
    draft.remove_condition(1, 0);
    assert_eq!(draft.rules[1].conditions[0].attribute, "country");
    draft.remove_rule(0);
    assert_eq!(draft.rules.len(), 1);
    assert_eq!(draft.rules[0].id, id(2));
    draft.describe_rule(9, "lost");
    draft.serve(9, "lost".to_owned());
    draft.add_condition(9);
    assert_eq!(draft.rules.len(), 1);
}

#[test]
fn the_fallthrough_is_one_variant_or_a_rollout() {
    let mut draft = draft();
    assert!(!draft.is_rollout());
    draft.set_split(1);
    draft.set_share(0, 1);
    assert_eq!(draft.fallthrough, fixed("on"));
    draft.set_mode(true, &variants(&["on", "off"]));
    assert!(draft.is_rollout());
    draft.set_split(10_000);
    draft.set_share(1, 5);
    assert_eq!(
        draft.fallthrough,
        Distribution::Rollout {
            weights: vec![weight("on", 10_000), weight("off", 5)],
            bucket_by: None,
        }
    );
    assert_eq!(shown_variant(&draft.fallthrough), "on");
    draft.set_mode(false, &variants(&["blue"]));
    assert_eq!(draft.fallthrough, fixed("blue"));
    draft.set_mode(false, &Vec::new());
    assert_eq!(draft.fallthrough, fixed(""));
    draft.set_fallthrough("off".to_owned());
    assert_eq!(shown_variant(&draft.fallthrough), "off");
    assert_eq!(shown_variant(&rollout(Vec::new())), "");
}

fn opened_flag() -> FlagDetail {
    let mut page = FlagDetail::new();
    page.environments_loaded(Ok(vec![environment("dev", false), environment("prod", true)]));
    match page.load_config(Some("t"), "p", "f") {
        Some((definition, config)) => {
            assert_eq!(definition.path, "/projects/p/flags/f");
            assert_eq!(config.path, "/projects/p/environments/prod/flags/f");
        }
        None => panic!("nothing asked"),
    }
    assert_eq!(page.screen(), Screen::Waiting);
    page.config_loaded(Ok(flag_of("f", "F")), Ok(config(3)));
    page
}

#[test]
fn a_flag_page_loads_both_halves() {
    let page = opened_flag();
    assert_eq!(page.screen(), Screen::Editing);
    assert_eq!(page.lead(), "Configuration in prod");
    assert!(page.is_selected("prod") && !page.is_selected("dev"));
    assert!(!page.is_dirty());
    assert_eq!(page.variants, variants(&["on", "off"]));

    let mut page = FlagDetail::new();
    assert!(page.load_config(Some("t"), "p", "f").is_none());
    page.select("dev".to_owned());
    page.config_loaded(Err(error(404, "no flag")), Err(error(404, "no config")));
    assert!(matches!(&page.loaded, Load::Failed(error) if error.title == "no flag"));
    assert_eq!(page.screen(), Screen::Failed);
    page.config_loaded(Ok(flag_of("f", "F")), Err(error(404, "no config")));
    assert!(matches!(&page.loaded, Load::Failed(error) if error.title == "no config"));
}

#[test]
fn only_a_changed_draft_is_saved_and_guarded_by_its_version() {
    let mut page = opened_flag();
    assert!(!page.offers_save(true));
    if let Some(draft) = &mut page.draft {
        draft.set_enabled(true);
    }
    assert!(page.offers_save(true) && !page.offers_save(false));
    assert!(page.save_disabled(1) && !page.save_disabled(0));
    match page.save(Some("t"), "p", "f") {
        Some(call) => {
            assert_eq!(call.method, Method::Put);
            assert_eq!(call.path, "/projects/p/environments/prod/flags/f");
            match call.body {
                Body::Config(body) => {
                    assert!(body.enabled);
                    assert_eq!(body.off_variant, "off");
                    assert_eq!(body.fallthrough, fixed("on"));
                    assert_eq!(body.expected_version, 3);
                }
                other => panic!("{other:?}"),
            }
        }
        None => panic!("nothing sent"),
    }
    assert!(page.save(Some("t"), "p", "f").is_none());

    // A lost race keeps the draft.
    let notice = page.saved(Err(error(409, "conflict")), "f", "prod");
    assert_eq!(notice.level, Level::Error);
    assert_eq!(notice.title, "Someone else saved first");
    assert!(page.is_dirty() && !page.saving);

    let notice = page.saved(Err(error(500, "boom")), "f", "prod");
    assert_eq!(notice.title, "Could not save");
    assert_eq!(notice.detail.as_deref(), Some("boom"));

    let mut saved = config(4);
    saved.enabled = true;
    let notice = page.saved(Ok(saved), "f", "prod");
    assert_eq!(notice.title, "Saved \u{2014} f updated in prod");
    assert!(!page.is_dirty());
    assert!(matches!(&page.draft, Some(draft) if draft.version == 4));
}

#[test]
fn a_value_that_is_no_number_never_looks_saved() {
    let mut page = opened_flag();
    let mut odd = config(4);
    odd.rules = vec![Rule {
        id: id(1),
        description: None,
        conditions: vec![Condition::new(
            "age",
            Operator::In,
            vec![AttributeValue::Number(Number { bits: f64::NAN.to_bits() })],
        )],
        distribution: fixed("on"),
    }];
    page.saved(Ok(odd), "f", "prod");
    assert!(page.is_dirty());
}

#[test]
fn validation_looks_at_the_draft_as_if_it_were_on() {
    let page = opened_flag();
    assert!(matches!(page.to_validate("f"), Some(flag) if flag.enabled && flag.key == "f"));
    assert!(matches!(page.to_preview("f"), Some(flag) if !flag.enabled && flag.version == 3));
    let empty = FlagDetail::new();
    assert!(empty.to_validate("f").is_none() && empty.to_preview("f").is_none());
    assert_eq!(switch_words(true).0, "Flag is on");
    assert_eq!(switch_words(false).0, "Flag is off");
}

#[test]
fn the_danger_zone_archives_and_deletes() {
    let mut zone = DangerZone::new();
    assert!(zone.archive(None, "p", "f").is_none());
    assert!(matches!(
        zone.archive(Some("t"), "p", "f"),
        Some(call) if call.method == Method::Patch && call.path == "/projects/p/flags/f"
    ));
    assert!(zone.busy);
    let notice = zone.archived(Ok(flag_of("f", "F")), "f");
    assert_eq!(notice.title, "f archived \u{2014} SDKs no longer receive it");
    assert_eq!(zone.archived(Err(error(500, "x")), "f").title, "Could not archive the flag");
    assert!(matches!(
        zone.delete(Some("t"), "p", "f"),
        Some(call) if call.method == Method::Delete
    ));
    let (notice, route) = zone.deleted(Ok(()), "p", "f");
    assert_eq!(notice.title, "f deleted");
    assert_eq!(route.as_deref(), Some("/projects/p"));
    let (notice, route) = zone.deleted(Err(error(500, "x")), "p", "f");
    assert_eq!(notice.title, "Could not delete the flag");
    assert_eq!(route, None);
    assert!(!zone.busy);
}

// -------------------------------------------------------------------- project

#[test]
fn a_switch_moves_at_once_and_is_guarded() {
    let mut page = ProjectDetail::new();
    page.environments_loaded(Ok(vec![environment("prod", true)]));
    assert!(page.load_flags(Some("t"), "p").is_some());
    page.flags_loaded(Ok(vec![row("a", "Alpha"), row("b", "Beta"), row("b", "Again")]));
    let shown = row("b", "Beta");
    match page.toggle(Some("t"), "p", &shown) {
        Some(call) => {
            assert_eq!(call.path, "/projects/p/environments/prod/flags/b");
            assert!(matches!(
                call.body,
                Body::Config(body) if body.enabled && body.expected_version == 1
            ));
        }
        None => panic!("nothing sent"),
    }
    let enabled = |page: &ProjectDetail| match &page.flags {
        Load::Ready(list) => list.iter().map(|row| row.config.enabled).collect::<Vec<bool>>(),
        _ => Vec::new(),
    };
    assert_eq!(enabled(&page), vec![false, true, false]);

    let mut written = config(2);
    written.enabled = true;
    let (notice, reload) = page.toggled(Ok(written), "b", "prod", true);
    assert_eq!(notice.title, "b is now on in prod");
    assert!(!reload);
    assert!(matches!(&page.flags, Load::Ready(list) if list[1].config.version == 2));

    let (notice, reload) = page.toggled(Err(error(409, "x")), "b", "prod", false);
    assert_eq!(notice.title, "Someone else changed this flag");
    assert!(reload);
    let (notice, reload) = page.toggled(Err(error(500, "x")), "b", "prod", false);
    assert_eq!(notice.title, "Could not change the flag");
    assert!(reload);
    assert!(page.toggle(None, "p", &shown).is_none());
}

#[test]
fn flags_are_filtered_by_key_and_name() {
    let mut page = ProjectDetail::new();
    assert!(page.visible().is_empty());
    assert_eq!(page.empty_title(), "No flags yet");
    page.flags_loaded(Ok(vec![row("checkout.v2", "New"), row("search", "Check index"), row("x", "y")]));
    assert_eq!(page.visible(), vec![0, 1, 2]);
    page.filter = "CHECK".to_owned();
    assert_eq!(page.visible(), vec![0, 1]);
    page.filter = "nope".to_owned();
    assert!(page.visible().is_empty());
    assert_eq!(page.empty_title(), "Nothing matches that filter");
}

#[test]
fn without_an_environment_there_are_no_flags() {
    let mut page = ProjectDetail::new();
    assert!(page.load_environments(None, "p").is_none());
    assert!(page.load_environments(Some("t"), "p").is_some());
    assert!(page.load_flags(Some("t"), "p").is_none());
    assert!(matches!(&page.flags, Load::Ready(list) if list.is_empty()));
    page.select("dev".to_owned());
    assert!(matches!(
        page.load_flags(Some("t"), "p"),
        Some(call) if call.path == "/projects/p/environments/dev/flags"
    ));
    assert!(matches!(page.flags, Load::Loading));
    page.environments_loaded(Err(error(500, "x")));
    assert_eq!(page.selected.as_deref(), Some("dev"));
}

#[test]
fn targeting_is_summed_up_in_one_line() {
    assert_eq!(describe_targeting(3, &fixed("on"), "off", false), "\u{2014}");
    assert_eq!(describe_targeting(0, &fixed("on"), "off", true), "everyone gets on");
    assert_eq!(describe_targeting(1, &fixed("on"), "off", true), "1 rule, then on");
    assert_eq!(describe_targeting(2, &fixed("on"), "off", true), "2 rules, then on");
    let split = rollout(vec![weight("on", 25_000), weight("off", 75_000)]);
    assert_eq!(describe_targeting(0, &split, "off", true), "25% on");
    assert_eq!(describe_targeting(1, &split, "off", true), "1 rule, then 25% on");
    // Of equal shares the last one counts.
    let tie = rollout(vec![weight("a", 500), weight("b", 500), weight("c", 1)]);
    assert_eq!(describe_targeting(0, &tie, "off", true), "0.5% b");
    let all_off = rollout(vec![weight("off", 100_000)]);
    assert_eq!(describe_targeting(0, &all_off, "off", true), "100% off");
    assert_eq!(describe_targeting(0, &rollout(Vec::new()), "off", true), "rollout");
}

#[test]
fn shares_are_written_without_trailing_zeros() {
    for (share, text) in [
        (0, "0"), (1, "0.001"), (10, "0.01"), (100, "0.1"), (1_000, "1"), (12_340, "12.34"),
        (33_333, "33.333"), (100_000, "100"), (u32::MAX, "4294967.295"),
    ] {
        assert_eq!(percent_text(share), text);
        let percent = f64::from(share) / f64::from(TOTAL_WEIGHT) * 100.0;
        let rendered = format!("{percent:.4}");
        assert_eq!(rendered.trim_end_matches('0').trim_end_matches('.'), text);
    }
    assert_eq!(enabled_badge(true), ("badge badge--on", "On"));
    assert_eq!(enabled_badge(false), ("badge badge--off", "Off"));
    assert_eq!(flag_href("p", "f"), "/projects/p/flags/f");
}

#[test]
fn project_dialogs_create_and_report() {
    let mut form = KeyForm::new();
    form.name_typed("New Flag".to_owned());
    match project::create_flag(&mut form, Some("t"), "p") {
        Some(call) => {
            assert_eq!(call.path, "/projects/p/flags");
            assert!(matches!(
                call.body,
                Body::Flag(body) if body.key == "new-flag" && body.variants.is_none()
            ));
        }
        None => panic!("nothing sent"),
    }
    assert!(project::create_flag(&mut form, Some("t"), "p").is_none());
    assert!(matches!(
        project::flag_answered(&mut form, Ok(flag_of("new-flag", "New Flag"))),
        Ok(key) if key == "new-flag"
    ));
    // Without a token nothing is sent, and the form stays busy.
    assert!(project::create_flag(&mut form, None, "p").is_none());
    assert!(form.busy);
    assert!(matches!(
        project::flag_answered(&mut form, Err(error(409, "taken"))),
        Err(notice) if notice.title == "Could not create the flag"
    ));
    match project::create_environment(&mut form, true, Some("t"), "p") {
        Some(call) => {
            assert_eq!(call.path, "/projects/p/environments");
            assert!(matches!(call.body, Body::Environment(body) if body.is_production));
        }
        None => panic!("nothing sent"),
    }
    assert!(matches!(
        project::environment_answered(&mut form, Ok(environment("eu", false))),
        Ok(key) if key == "eu"
    ));
    assert!(matches!(
        project::environment_answered(&mut form, Err(error(500, "x"))),
        Err(notice) if notice.title == "Could not create the environment"
    ));
    let mut page = ProjectDetail::new();
    page.creating_flag = true;
    let (notice, reload) = page.flag_created("f");
    assert_eq!(notice.title, "Flag \u{201c}f\u{201d} created, off everywhere");
    assert_eq!(reload, Reload::Flags);
    assert!(!page.creating_flag);
    page.creating_env = true;
    let (notice, reload) = page.environment_created("e");
    assert_eq!(notice.title, "Environment \u{201c}e\u{201d} created");
    assert_eq!(reload, Reload::Environments);
    assert!(!page.creating_env);
}

#[test]
fn a_deleted_project_leads_back_to_the_list() {
    assert!(project::delete_project(None, "p").is_none());
    assert!(matches!(
        project::delete_project(Some("t"), "p"),
        Some(call) if call.method == Method::Delete && call.path == "/projects/p"
    ));
    let (notice, route) = project::project_deleted(Ok(()), "p");
    assert_eq!(notice.title, "Project \u{201c}p\u{201d} deleted");
    assert_eq!(route, Some("/projects"));
    let (notice, route) = project::project_deleted(Err(error(403, "no")), "p");
    assert_eq!(notice.title, "Could not delete the project");
    assert_eq!(route, None);
}

#[test]
fn the_project_list_loads_and_creates() {
    let project = || Project {
        id: "1".to_owned(),
        key: "checkout".to_owned(),
        name: "Checkout".to_owned(),
        description: None,
        created_at: "2024-01-01T00:00:00Z".to_owned(),
    };
    let mut page = Projects::new();
    assert!(page.reload(None).is_none());
    assert!(matches!(page.reload(Some("t")), Some(call) if call.path == "/projects"));
    page.projects_loaded(Ok(vec![project()]));
    assert!(matches!(&page.projects, Load::Ready(list) if list.len() == 1));
    page.creating = true;
    let (notice, next) = page.created("Checkout");
    assert_eq!(notice.title, "Project \u{201c}Checkout\u{201d} created");
    assert!(matches!(next, Next::Reload));
    assert!(!page.creating);
    assert_eq!(projects::project_href(&project()), "/projects/checkout");
    assert_eq!(projects::card_description(&project()), "No description.");
    let now = Timestamp { seconds: 1_704_067_260, nanos: 0 };
    assert_eq!(projects::card_age(&project(), now), "Created 1m ago");
    let mut form = KeyForm::new();
    form.name_typed("Checkout".to_owned());
    assert!(matches!(
        projects::create_project(&mut form, Some("t")),
        Some(call) if matches!(&call.body, Body::Project(body) if body.key == "checkout")
    ));
    assert!(matches!(
        projects::project_created(&mut form, Ok(project())),
        Ok(name) if name == "Checkout"
    ));
    assert!(matches!(
        projects::project_created(&mut form, Err(error(409, "taken"))),
        Err(notice) if notice.title == "Could not create the project"
    ));
}

// ----------------------------------------------------------------------- keys

fn api_key(revoked: bool) -> ApiKey {
    ApiKey {
        id: "k".to_owned(),
        name: "svc".to_owned(),
        prefix: "ff_ab".to_owned(),
        scope: "server".to_owned(),
        created_at: String::new(),
        last_used_at: None,
        revoked_at: if revoked { Some("2024-01-01T00:00:00Z".to_owned()) } else { None },
    }
}

#[test]
fn keys_are_listed_and_revoked() {
    let mut page = Keys::new();
    assert!(page.load_keys(Some("t"), "p").is_none());
    page.environments_loaded(Ok(vec![environment("prod", true)]));
    assert!(matches!(
        page.load_keys(Some("t"), "p"),
        Some(call) if call.path == "/projects/p/environments/prod/keys"
    ));
    page.keys_loaded(Ok(vec![api_key(false)]));
    assert!(matches!(
        page.revoke(Some("t"), "p", "k"),
        Some(call) if call.path == "/projects/p/environments/prod/keys/k"
    ));
    page.select("dev".to_owned());
    assert!(page.revoke(None, "p", "k").is_none());
    let (notice, reload) = keys::revoked(Ok(()));
    assert_eq!(notice.title, "Key revoked \u{2014} it stops working on the next request");
    assert!(reload);
    let (notice, reload) = keys::revoked(Err(error(500, "x")));
    assert_eq!(notice.title, "Could not revoke the key");
    assert!(!reload);
}

#[test]
fn a_secret_is_shown_once() {
    let mut page = Keys::new();
    page.creating = true;
    let next = page.created("svc".to_owned(), "ff_secret".to_owned());
    assert!(matches!(next, Next::Reload));
    assert!(!page.creating);
    assert!(matches!(&page.revealed, Some((name, _)) if name == "svc"));
    page.dismiss();
    assert_eq!(page.revealed, None);
}

#[test]
fn key_rows_say_what_can_be_done() {
    assert_eq!(keys::key_status(&api_key(true), Some(&me("owner"))), KeyStatus::Revoked);
    assert_eq!(keys::key_status(&api_key(false), Some(&me("admin"))), KeyStatus::Revocable);
    assert_eq!(keys::key_status(&api_key(false), Some(&me("member"))), KeyStatus::Active);
    assert_eq!(keys::key_status(&api_key(false), None), KeyStatus::Active);
    assert_eq!(keys::scope_class("server"), "badge badge--accent");
    assert_eq!(keys::scope_class("client"), "badge badge--info");
    assert_eq!(keys::shown_key(&api_key(false)), "ff_ab\u{2026}");
    let now = Timestamp { seconds: 1_704_067_260, nanos: 0 };
    assert_eq!(keys::last_used(&api_key(false), now), "never");
    let mut used = api_key(false);
    used.last_used_at = Some("2024-01-01T00:00:00Z".to_owned());
    assert_eq!(keys::last_used(&used, now), "1m ago");
}

#[test]
fn a_new_key_has_a_scope() {
    let mut form = CreateKey::new();
    assert_eq!(form.scope_hint(), "Can evaluate flags and download targeting rules.");
    form.name = "svc".to_owned();
    form.scope = "client".to_owned();
    assert!(form.scope_hint().starts_with("Can evaluate flags only."));
    match form.submit(Some("t"), "p", "e") {
        Some(call) => assert!(matches!(
            call.body,
            Body::Key(body) if body.name == "svc" && body.scope == "client"
        )),
        None => panic!("nothing sent"),
    }
    assert!(form.submit(Some("t"), "p", "e").is_none());
    let created = CreatedKey { key: api_key(false), secret: "ff_secret".to_owned() };
    assert!(matches!(
        form.submitted(Ok(created)),
        Ok((name, secret)) if name == "svc" && secret == "ff_secret"
    ));
    assert!(matches!(
        form.submitted(Err(error(500, "x"))),
        Err(notice) if notice.title == "Could not create the key"
    ));
}

// ------------------------------------------------------------------- segments

#[test]
fn lists_of_keys_round_trip() {
    let set = from_lines("b, a\n\n c d \n,a");
    assert_eq!(to_lines(&set), "a\nb\nc d");
    assert_eq!(from_lines(&to_lines(&set)).list(), set.list());
    assert!(from_lines(&to_lines(&KeySet::new())).is_empty());
}

#[test]
fn membership_is_summed_up() {
    assert_eq!(describe(&segment(&[], 0, &[])), "");
    assert_eq!(describe(&segment(&["a", "b"], 1, &["c"])), "2 always in \u{b7} 1 rule \u{b7} 1 excluded");
    assert_eq!(describe(&segment(&[], 2, &[])), "2 rules");
}

#[test]
fn a_segment_draft_is_edited() {
    let mut draft = segments::Draft::from(&segment(&["b", "a"], 1, &[]), vec!["f".to_owned(), "g".to_owned()]);
    assert_eq!(draft.included, "a\nb");
    assert!(draft.is_blocked());
    assert_eq!(draft.used_by(), "f, g");
    draft.add_rule(id(7));
    assert_eq!(draft.rules[1].conditions[0].attribute, "plan");
    draft.describe_rule(1, " x ");
    draft.add_condition(1);
    draft.edit_condition(1, 0, ConditionEdit::Attribute("tier".to_owned()));
    draft.remove_condition(1, 1);
    assert_eq!(draft.rules[1].conditions.len(), 1);
    assert_eq!(draft.rules[1].conditions[0].attribute, "tier");
    assert_eq!(draft.rules[1].description.as_deref(), Some("x"));
    assert_eq!(shown_share(&draft.rules[1]), TOTAL_WEIGHT);
    assert_eq!(rollout_hint(&draft.rules[1]), "100 % \u{2014} everyone the conditions match.");
    draft.rules[1].rollout =
        Some(SegmentRollout { percentage: 5, bucket_by: Some("account".to_owned()) });
    draft.set_rollout(1, Some(40));
    assert!(matches!(
        &draft.rules[1].rollout,
        Some(rollout) if rollout.percentage == 40 && rollout.bucket_by.as_deref() == Some("account")
    ));
    assert_eq!(shown_share(&draft.rules[1]), 40);
    draft.set_rollout(1, None);
    assert!(draft.rules[1].rollout.is_none());
    draft.remove_rule(0);
    assert_eq!(draft.rules[0].id, id(7));
}

#[test]
fn saving_a_segment_is_guarded_and_a_lost_race_reopens_it() {
    let mut page = Segments::new();
    page.environments_loaded(Ok(vec![environment("prod", true)]));
    assert!(matches!(
        page.environment_changed(Some("t"), "p"),
        Some(call) if call.path == "/projects/p/environments/prod/segments"
    ));
    page.segments_loaded(Ok(vec![segment(&["a"], 0, &[])]));
    assert!(matches!(
        page.open(Some("t"), "p", "beta"),
        Some(call) if call.path == "/projects/p/environments/prod/segments/beta"
    ));
    assert!(matches!(
        page.opened(Err(error(404, "x"))),
        Some(notice) if notice.title == "Could not open the segment"
    ));
    let found = SegmentWithUsage {
        segment: segment(&["b", "a"], 0, &["c"]),
        referenced_by: vec!["f".to_owned()],
    };
    assert!(page.opened(Ok(found)).is_none());
    match page.save(Some("t"), "p") {
        Some(call) => {
            assert_eq!(call.method, Method::Put);
            match call.body {
                Body::Membership(body) => {
                    assert_eq!(body.included.list(), &vec!["a".to_owned(), "b".to_owned()]);
                    assert_eq!(body.excluded.list(), &vec!["c".to_owned()]);
                    assert_eq!(body.expected_version, 4);
                }
                other => panic!("{other:?}"),
            }
        }
        None => panic!("nothing sent"),
    }
    assert!(page.save(Some("t"), "p").is_none());
    let (notice, next) = page.saved(Err(error(409, "stale")), "beta", Vec::new());
    assert_eq!(notice.title, "Someone else changed this segment \u{2014} reopen it");
    assert!(matches!(next, Next::Reopen(key) if key == "beta"));
    let (notice, next) = page.saved(Err(error(500, "x")), "beta", Vec::new());
    assert_eq!(notice.title, "Could not save the segment");
    assert!(matches!(next, Next::Stay));
    let (notice, next) =
        page.saved(Ok(segment(&["z"], 0, &[])), "beta", vec!["f".to_owned()]);
    assert_eq!(notice.title, "Segment saved \u{2014} every flag that references it follows");
    assert!(matches!(next, Next::Reload));
    assert!(matches!(
        &page.draft,
        Some(draft) if draft.included == "z" && draft.referenced_by == vec!["f".to_owned()]
    ));
}

#[test]
fn segments_are_deleted_and_created() {
    let mut page = Segments::new();
    assert!(page.delete(Some("t"), "p", "beta").is_none());
    page.select("prod".to_owned());
    assert!(matches!(
        page.delete(Some("t"), "p", "beta"),
        Some(call) if call.method == Method::Delete
    ));
    page.draft = Some(segments::Draft::from(&segment(&[], 0, &[]), Vec::new()));
    let (notice, next) = page.deleted(Err(error(409, "in use")));
    assert_eq!(notice.title, "Could not delete the segment");
    assert!(matches!(next, Next::Stay) && page.draft.is_some());
    let (notice, next) = page.deleted(Ok(()));
    assert_eq!(notice.title, "Segment deleted");
    assert!(matches!(next, Next::Reload) && page.draft.is_none());
    page.creating = true;
    let next = page.created("new".to_owned());
    assert!(matches!(next, Next::ReloadThenOpen(key) if key == "new"));
    assert!(!page.creating);
    page.close();
    let mut form = KeyForm::new();
    form.name_typed("Beta testers".to_owned());
    assert!(matches!(
        segments::create_segment(&mut form, Some("t"), "p", "e"),
        Some(call) if matches!(&call.body, Body::Segment(body) if body.key == "beta-testers")
    ));
    assert!(matches!(
        segments::segment_answered(&mut form, Ok(segment(&[], 0, &[]))),
        Ok(key) if key == "beta"
    ));
    assert!(matches!(
        segments::segment_answered(&mut form, Err(error(500, "x"))),
        Err(notice) if notice.title == "Could not create the segment"
    ));
}

// ---------------------------------------------------------------- experiments

#[test]
fn experiments_are_opened_moved_and_deleted() {
    let mut page = Experiments::new();
    page.environments_loaded(Ok(vec![environment("prod", true)]));
    assert!(page.environment_changed(Some("t"), "p").is_some());
    page.experiments_loaded(Ok(vec![experiment("cta", "draft")]));
    assert!(matches!(
        page.open(Some("t"), "p", "cta".to_owned()),
        Some(call) if call.path == "/projects/p/environments/prod/experiments/cta/results"
    ));
    assert!(matches!(page.opened, Some(Load::Loading)));
    page.results_loaded(Ok(ExperimentResults {
        experiment: experiment("cta", "draft"),
        results: Vec::new(),
    }));
    assert!(matches!(
        page.transition(Some("t"), "p", "cta", Action::Start),
        Some(call) if call.path == "/projects/p/environments/prod/experiments/cta/start"
    ));
    let (notice, reload, reopen) =
        page.transitioned(Ok(experiment("cta", "running")), "cta", Action::Start);
    assert_eq!(notice.title, "Experiment running \u{2014} SDKs will start recording");
    assert!(reload && reopen);
    let (notice, reload, reopen) =
        page.transitioned(Ok(experiment("b", "stopped")), "b", Action::Stop);
    assert_eq!(notice.title, "Experiment stopped \u{2014} the results are final");
    assert!(reload && !reopen);
    let (notice, reload, reopen) =
        page.transitioned(Err(error(409, "x")), "cta", Action::Stop);
    assert_eq!(notice.title, "Could not change the experiment");
    assert!(!reload && !reopen);
    assert!(page.delete(Some("t"), "p", "cta").is_some());
    let (notice, reload) = page.deleted(Err(error(409, "running")));
    assert_eq!(notice.title, "Could not delete the experiment");
    assert!(!reload && page.opened.is_some());
    let (notice, reload) = page.deleted(Ok(()));
    assert_eq!(notice.title, "Experiment deleted");
    assert!(reload && page.opened.is_none() && page.opened_key.is_none());
    page.creating = true;
    let next = page.created("new".to_owned());
    assert!(matches!(next, Next::ReloadThenOpen(key) if key == "new"));
    assert!(!page.creating);
    page.select("dev".to_owned());
    assert!(page.load_experiments(None, "p").is_none());
}

#[test]
fn a_row_offers_the_next_move_only() {
    assert_eq!(offers(&experiment("a", "draft"), true), Some(Action::Start));
    assert_eq!(offers(&experiment("a", "running"), true), Some(Action::Stop));
    assert_eq!(offers(&experiment("a", "stopped"), true), None);
    assert_eq!(offers(&experiment("a", "draft"), false), None);
    assert_eq!(deleting(&experiment("a", "running"), true), Deleting::StopFirst);
    assert_eq!(deleting(&experiment("a", "draft"), true), Deleting::Offered);
    assert_eq!(deleting(&experiment("a", "draft"), false), Deleting::Hidden);
    assert_eq!(state_badge("running"), ("badge badge--on", "Running", true));
    assert_eq!(state_badge("stopped"), ("badge badge--off", "Stopped", false));
    assert_eq!(state_badge("draft"), ("badge", "Draft", false));
}

#[test]
fn results_are_judged_in_words() {
    assert!(no_data(&vec![arm("on", 0, 0), arm("off", 0, 0)]));
    assert!(!no_data(&vec![arm("on", 0, 1)]));
    assert!(has_excess(&vec![arm("on", 5, 5), arm("off", 5, 6)]));
    assert!(!has_excess(&vec![arm("on", 0, 6)]));
    assert_eq!(arm_color(&variants(&["a", "b", "c", "d", "e"]), "e"), 0);
    assert_eq!(arm_color(&variants(&["a", "b"]), "b"), 1);
    let (rate, interval) = (Some("5.0 %".to_owned()), Some("95 % CI 4.0\u{2013}6.0 %".to_owned()));
    assert_eq!(meter_label("on", &rate, &interval), "on: 5.0 %, 95 % CI 4.0\u{2013}6.0 %");
    assert_eq!(meter_label("on", &rate, &None), "on: no exposures yet");
    assert_eq!(meter_caption(&rate, &interval), "5.0 % \u{b7} 95 % CI 4.0\u{2013}6.0 %");
    assert_eq!(meter_caption(&None, &None), "No exposures yet");
    assert_eq!(shown_day("2026-05-04T10:20:30Z"), "2026-05-04");
    assert_eq!(shown_day("today"), "today");
    let judged = |significant| {
        let mut judged = arm("on", 10, 2);
        let zero = Number { bits: 0 };
        judged.vs_control = Some(Comparison { lift: zero, p_value: zero, significant });
        judged
    };
    assert_eq!(experiments::verdict(&judged(true), "on"), Verdict::Baseline);
    assert_eq!(experiments::verdict(&judged(true), "off"), Verdict::Significant);
    assert_eq!(experiments::verdict(&judged(false), "off"), Verdict::NotSignificant);
    assert_eq!(experiments::verdict(&arm("on", 0, 0), "off"), Verdict::AwaitingData);
    assert_eq!(Verdict::Baseline.words(), "\u{2014} baseline");
    assert_eq!(Verdict::AwaitingData.words(), "Awaiting data");
}

#[test]
fn a_new_experiment_starts_from_the_first_live_flag() {
    let mut page = CreateExperiment::new();
    assert_eq!(page.choices(), None);
    assert!(matches!(
        page.load_flags(Some("t"), "p", "e"),
        Some(call) if call.path == "/projects/p/environments/e/flags"
    ));
    let mut archived = row("old", "Old");
    archived.flag.archived = true;
    let mut other = row("other", "Other");
    other.config.off_variant = "grey".to_owned();
    other.flag.variants = variants(&["blue", "grey"]);
    page.flags_loaded(Ok(vec![archived, row("live", "Live"), other]));
    assert_eq!((page.flag_key.as_str(), page.control.as_str()), ("live", "off"));
    assert_eq!(page.choices(), Some(vec!["live".to_owned(), "other".to_owned()]));
    page.choose_flag("other".to_owned());
    assert_eq!(page.control, "grey");
    assert_eq!(page.variants_of_selected(), variants(&["blue", "grey"]));
    page.choose_flag("unheard".to_owned());
    assert_eq!(page.control, "grey");
    assert!(page.variants_of_selected().is_empty());
    page.form.name_typed("Call to action".to_owned());
    page.metric_key = "order".to_owned();
    match page.submit(Some("t"), "p", "e") {
        Some(call) => match call.body {
            Body::Experiment(body) => {
                assert_eq!(body.key, "call-to-action");
                assert_eq!(body.flag_key, "unheard");
                assert_eq!(body.metric_key, "order");
                assert_eq!(body.control_variant, "grey");
            }
            other => panic!("{other:?}"),
        },
        None => panic!("nothing sent"),
    }
    assert!(page.submit(Some("t"), "p", "e").is_none());
    assert!(matches!(
        page.submitted(Ok(experiment("call-to-action", "draft"))),
        Ok(key) if key == "call-to-action"
    ));
    assert!(matches!(
        page.submitted(Err(error(500, "x"))),
        Err(notice) if notice.title == "Could not create the experiment"
    ));
}
