//! The client, the session, notifications and the small pieces.

use flagforge::domain::ValidationIssue;
use flagforge::keyset::KeySet;
use flagforge::text::{
    comes_before, contains, cut, decimal_int_text, decimal_text, ends_with, entries, join, space,
    split, start_of, trim,
};
use flagforge::time::{ago_text, relative_time_at, Timestamp};
use flagforge::web::api;
use flagforge::web::api::models::{Me, Organization, Segment, User};
use flagforge::web::api::{ApiError, Body, ConfigBody, Load, LoginBody, Method, NewKey};
use flagforge::web::app::{avatar, identity_name, identity_org};
use flagforge::web::components::{
    closes_dialog, copied, path_for, relative_time, skeleton_width, trap, Confirmation,
};
use flagforge::web::session::{Session, TOKEN_KEY};
use flagforge::web::theme::{current, toggle, Theme, THEME_KEY};
use flagforge::web::toast::{Level, Notice, Toaster, DISMISS_AFTER_MS};

// -------------------------------------------------------------------- helpers

fn me(role: &str) -> Me {
    Me {
        user: User {
            id: "u".to_owned(),
            organization_id: "o".to_owned(),
            email: "ada@x".to_owned(),
            role: role.to_owned(),
            created_at: String::new(),
        },
        organization: Organization {
            id: "o".to_owned(),
            name: "Acme".to_owned(),
            slug: "acme".to_owned(),
        },
    }
}

fn error(status: u16, title: &str) -> ApiError {
    ApiError {
        status,
        kind: "k".to_owned(),
        title: title.to_owned(),
        issues: Vec::new(),
    }
}

fn issue(path: &str, message: &str) -> ValidationIssue {
    ValidationIssue { path: path.to_owned(), message: message.to_owned() }
}

fn owned(list: &[&str]) -> Vec<String> {
    list.iter().map(|t| (*t).to_owned()).collect()
}

// ----------------------------------------------------------------------- text

#[test]
fn texts_are_trimmed_split_and_joined() {
    assert_eq!(trim(" \t a b \u{a0}\n"), "a b");
    assert_eq!(trim("   "), "");
    assert_eq!(split("a,b\n,", '\n', ','), owned(&["a", "b", "", ""]));
    assert_eq!(split("", ',', ','), owned(&[""]));
    assert_eq!(entries(" a , ,b\n c", '\n', ','), owned(&["a", "b", "c"]));
    assert_eq!(join(&owned(&["a", "b"]), ", "), "a, b");
    assert_eq!(join(&Vec::new(), ", "), "");
    assert_eq!(cut("a=b=c", '='), Some(("a".to_owned(), "b=c".to_owned())));
    assert_eq!(cut("abc", '='), None);
    assert_eq!(start_of("2024-01-02T03", 10), "2024-01-02");
    assert_eq!(start_of("ab", 10), "ab");
}

#[test]
fn white_space_is_what_unicode_says() {
    for c in '\0'..=char::MAX {
        assert_eq!(space(c), c.is_whitespace());
    }
}

#[test]
fn texts_are_ordered_as_they_sort() {
    let list = ["", "a", "ab", "b", "\u{e9}", "\u{ffff}", "\u{10000}", "A"];
    for a in list {
        for b in list {
            assert_eq!(comes_before(a, b), a < b);
        }
    }
}

#[test]
fn trimming_twice_is_trimming_once() {
    let once = trim("  a  ");
    assert_eq!(trim(&once), once);
}

#[test]
fn texts_are_searched_and_ordered() {
    assert!(contains("checkout", "eck"));
    assert!(contains("checkout", ""));
    assert!(!contains("check", "checkout"));
    assert!(ends_with("flag.deleted", ".deleted"));
    assert!(!ends_with("deleted", ".deleted"));
    assert!(comes_before("a", "ab"));
    assert!(comes_before("a", "b"));
    assert!(!comes_before("b", "a"));
    assert!(!comes_before("a", "a"));
}

#[test]
fn numbers_are_written_in_decimal() {
    assert_eq!(decimal_text(0), "0");
    assert_eq!(decimal_text(u64::MAX), "18446744073709551615");
    assert_eq!(decimal_int_text(i64::MIN), "-9223372036854775808");
    assert_eq!(decimal_int_text(42), "42");
}

#[test]
fn a_key_set_is_sorted_and_holds_each_key_once() {
    let set = KeySet::of(&owned(&["b", "a", "b"])).with("c".to_owned()).with("a".to_owned());
    assert_eq!(set.list(), &owned(&["a", "b", "c"]));
    assert_eq!(set.len(), 3);
    assert!(!set.is_empty());
    assert!(KeySet::new().is_empty());
}

// ----------------------------------------------------------------------- time

#[test]
fn times_read_as_how_long_ago() {
    let day = || "01 Jan 2024".to_owned();
    assert_eq!(ago_text(-5, day()), "just now");
    assert_eq!(ago_text(59, day()), "just now");
    assert_eq!(ago_text(60, day()), "1m ago");
    assert_eq!(ago_text(3_599, day()), "59m ago");
    assert_eq!(ago_text(3_600, day()), "1h ago");
    assert_eq!(ago_text(86_399, day()), "23h ago");
    assert_eq!(ago_text(86_400, day()), "1d ago");
    assert_eq!(ago_text(2_591_999, day()), "29d ago");
    assert_eq!(ago_text(2_592_000, day()), "01 Jan 2024");
}

#[test]
fn timestamps_are_read_against_the_clock() {
    // 1704067200 is 2024-01-01T00:00:00Z.
    let now = |seconds| Timestamp { seconds, nanos: 0 };
    assert_eq!(relative_time_at("2024-01-01T00:00:00Z", now(1_704_067_320)), "2m ago");
    assert_eq!(relative_time_at("2024-01-01T02:00:00+02:00", now(1_704_070_800)), "1h ago");
    assert_eq!(relative_time_at("2024-01-01T00:00:00Z", now(1_706_659_200)), "01 Jan 2024");
    assert_eq!(relative_time_at("yesterday", now(0)), "yesterday");
    assert_eq!(relative_time("yesterday"), "yesterday");
    assert_eq!(relative_time("2020-02-03T00:00:00Z"), "03 Feb 2020");
}

// --------------------------------------------------------------------- client

#[test]
fn calls_name_their_method_path_token_and_body() {
    let call = api::login(LoginBody { email: "a", password: "correct horse" });
    assert_eq!(call.method, Method::Post);
    assert_eq!(call.url(), "/api/v1/auth/login");
    assert_eq!(call.authorization(), None);
    assert!(matches!(call.body, Body::Login(body) if body.email == "a"));

    let call = api::me("t");
    assert_eq!(call.url(), "/api/v1/auth/me");
    assert_eq!(call.authorization(), Some("Bearer t".to_owned()));
    assert!(matches!(call.body, Body::Nothing));

    let call = api::create_key("t", "p", "e", NewKey { name: "n", scope: "server" });
    assert_eq!(call.path, "/projects/p/environments/e/keys");
    assert!(matches!(call.body, Body::Key(body) if body.scope == "server"));
}

#[test]
fn every_path_is_where_the_server_has_it() {
    assert_eq!(api::list_projects("t").path, "/projects");
    assert_eq!(api::delete_project("t", "p").path, "/projects/p");
    assert_eq!(api::list_environments("t", "p").path, "/projects/p/environments");
    assert_eq!(api::get_flag("t", "p", "f").path, "/projects/p/flags/f");
    assert_eq!(api::delete_flag("t", "p", "f").method, Method::Delete);
    let call = api::archive_flag("t", "p", "f", true);
    assert_eq!(call.method, Method::Patch);
    assert!(matches!(call.body, Body::Archive(body) if body.archived));
    assert_eq!(api::list_configured("t", "p", "e").path, "/projects/p/environments/e/flags");
    assert_eq!(api::get_config("t", "p", "e", "f").path, "/projects/p/environments/e/flags/f");
    assert_eq!(api::list_segments("t", "p", "e").path, "/projects/p/environments/e/segments");
    assert_eq!(
        api::get_segment("t", "p", "e", "s").path,
        "/projects/p/environments/e/segments/s"
    );
    assert_eq!(api::delete_segment("t", "p", "e", "s").method, Method::Delete);
    assert_eq!(
        api::list_experiments("t", "p", "e").path,
        "/projects/p/environments/e/experiments"
    );
    let call = api::transition_experiment("t", "p", "e", "x", "start");
    assert_eq!(call.path, "/projects/p/environments/e/experiments/x/start");
    assert!(matches!(call.body, Body::Null));
    assert_eq!(
        api::experiment_results("t", "p", "e", "x").path,
        "/projects/p/environments/e/experiments/x/results"
    );
    assert_eq!(
        api::delete_experiment("t", "p", "e", "x").path,
        "/projects/p/environments/e/experiments/x"
    );
    assert_eq!(api::list_keys("t", "p", "e").method, Method::Get);
    assert_eq!(api::revoke_key("t", "p", "e", "k").path, "/projects/p/environments/e/keys/k");
    assert_eq!(api::audit("t", 40, None).path, "/audit?limit=40");
    assert_eq!(api::audit("t", 40, Some(-7)).path, "/audit?limit=40&before_id=-7");
    let body = ConfigBody {
        enabled: true,
        off_variant: "off".to_owned(),
        fallthrough: flagforge::domain::Distribution::Fixed { variant: "on".to_owned() },
        rules: Vec::new(),
        expected_version: 3,
    };
    let call = api::put_config("t", "p", "e", "f", body);
    assert_eq!(call.method, Method::Put);
    assert!(matches!(call.body, Body::Config(body) if body.expected_version == 3));
}

#[test]
fn a_problem_document_becomes_an_error() {
    let text = "{\"type\":\"validation_failed\",\"title\":\"nope\"}".to_owned();
    let issues = vec![issue("rules", "empty")];
    match api::receive(422, text, Some(issues)) {
        Err(error) => {
            assert_eq!(error.status, 422);
            assert_eq!(error.kind, "validation_failed");
            assert_eq!(error.title, "nope");
            assert_eq!(error.issues, vec![issue("rules", "empty")]);
        }
        Ok(text) => panic!("{text}"),
    }
}

#[test]
fn anything_else_falls_back_to_the_status() {
    for text in ["<html>", "[1]", "{\"type\":7}", ""] {
        match api::receive(502, text.to_owned(), None) {
            Err(error) => {
                assert!(error.issues.is_empty());
                assert_eq!(error.status, 502);
                assert_eq!(error.kind, "unexpected");
                assert_eq!(error.title, "the request failed");
            }
            Ok(text) => panic!("{text}"),
        }
    }
    match api::receive(502, "<html>".to_owned(), Some(vec![issue("rules", "empty")])) {
        Err(error) => assert!(error.issues.is_empty()),
        Ok(text) => panic!("{text}"),
    }
    assert!(api::receive(199, String::new(), None).is_err());
    assert!(api::receive(300, String::new(), None).is_err());
}

#[test]
fn an_empty_success_reads_as_null() {
    assert!(matches!(api::receive(204, " \n".to_owned(), None), Ok(text) if text == "null"));
    assert!(matches!(api::receive(200, " 1".to_owned(), None), Ok(text) if text == " 1"));
    assert!(matches!(api::receive(299, String::new(), None), Ok(text) if text == "null"));
}

#[test]
fn a_reply_of_the_wrong_shape_is_reported() {
    let failed = serde_json::from_str::<u8>("{}");
    let expected = match &failed {
        Err(source) => {
            format!("could not reach the server: unexpected response shape: {source}")
        }
        Ok(_) => unreachable!(),
    };
    match api::decode(failed) {
        Err(error) => {
            assert_eq!(error.status, 0);
            assert_eq!(error.kind, "network");
            assert_eq!(error.title, expected);
        }
        Ok(value) => panic!("{value}"),
    }
    assert!(matches!(api::decode(serde_json::from_str::<u8>("7")), Ok(7)));
}

#[test]
fn errors_are_told_apart() {
    assert!(error(401, "").is_unauthorized());
    assert!(!error(403, "").is_unauthorized());
    assert!(error(409, "").is_conflict());
    assert!(!error(412, "").is_conflict());
    assert_eq!(ApiError::network("down").title, "could not reach the server: down");
}

#[test]
fn an_answer_is_ready_or_failed() {
    assert!(matches!(Load::from(Ok::<u8, ApiError>(3)), Load::Ready(3)));
    assert!(matches!(
        Load::<u8>::from(Err(error(500, "x"))),
        Load::Failed(error) if error.title == "x"
    ));
}

#[test]
fn roles_decide_what_the_dashboard_offers() {
    for (role, write, administer) in [
        ("owner", true, true),
        ("admin", true, true),
        ("member", true, false),
        ("viewer", false, false),
        ("Owner", false, false),
    ] {
        let user = me(role).user;
        assert_eq!(user.can_write(), write);
        assert_eq!(user.can_administer(), administer);
    }
    assert_eq!(me("owner").user.initials(), "AD");
    let mut user = me("owner").user;
    user.email = "\u{df}".to_owned();
    assert_eq!(user.initials(), "SS");
}

#[test]
fn a_segment_without_a_way_in_is_empty() {
    let mut segment = Segment {
        id: String::new(),
        key: String::new(),
        name: String::new(),
        description: None,
        included: KeySet::new(),
        excluded: KeySet::of(&owned(&["a"])),
        rules: Vec::new(),
        version: 1,
        updated_at: String::new(),
    };
    assert!(segment.is_empty());
    segment.included = KeySet::of(&owned(&["b"]));
    assert!(!segment.is_empty());
}

// -------------------------------------------------------------------- session

#[test]
fn a_stored_token_is_checked_before_anyone_is_bounced() {
    assert_eq!(TOKEN_KEY, "flagforge.token");
    let mut session = Session::new(Some("t".to_owned()));
    assert!(session.is_resolving() && session.is_authenticated());
    assert!(!session.must_sign_in() && !session.may_enter());
    match session.refresh_identity() {
        Some(call) => assert_eq!(call.authorization(), Some("Bearer t".to_owned())),
        None => panic!("nothing asked"),
    }
    assert!(!session.identity_loaded(Ok(me("owner"))));
    assert!(session.may_enter());
    assert!(matches!(session.identity(), Some(me) if me.user.role == "owner"));
    session.sign_out();
    assert!(session.must_sign_in());
    assert!(session.identity().is_none());
    assert_eq!(session.token_untracked(), None);
}

#[test]
fn a_refused_token_signs_out_and_an_unreachable_server_does_not() {
    let mut session = Session::default();
    session.sign_in("t".to_owned());
    assert!(session.is_resolving());
    assert!(!session.identity_loaded(Err(error(0, "network"))));
    assert_eq!(session.token_untracked(), Some("t".to_owned()));
    assert!(session.may_enter());
    assert!(session.identity_loaded(Err(error(401, "expired"))));
    assert_eq!(session.token_untracked(), None);
    assert!(session.must_sign_in());
}

#[test]
fn without_a_token_there_is_nothing_to_resolve() {
    let mut session = Session::new(None);
    session.resolving = true;
    assert!(session.refresh_identity().is_none());
    assert!(!session.is_resolving());
}

// ---------------------------------------------------------------------- theme

#[test]
fn the_theme_toggles_and_round_trips() {
    assert_eq!(THEME_KEY, "flagforge.theme");
    let mut theme = current(None);
    assert_eq!(theme, Theme::Light);
    assert_eq!(toggle(&mut theme), "dark");
    assert_eq!(current(Some("dark")), theme);
    assert_eq!(theme.switch_label(), "Switch to light theme");
    assert_eq!(theme.switch_icon(), "sun");
    assert_eq!(theme.switch_word(), "Light");
    assert_eq!(toggle(&mut theme), "light");
    assert_eq!(theme, Theme::Light);
    assert_eq!(theme.toggled().toggled(), theme);
    assert_eq!(current(Some("Dark")), Theme::Light);
}

// -------------------------------------------------------------- notifications

#[test]
fn notifications_are_numbered_and_dismissed() {
    assert_eq!(DISMISS_AFTER_MS, 5_000);
    let mut toaster = Toaster::new();
    let first = toaster.success("saved");
    let second = toaster.message(Level::Error, "odd", "very");
    assert_eq!((first, second), (1, 2));
    assert_eq!(toaster.items().len(), 2);
    assert_eq!(toaster.items()[0].level, Level::Success);
    assert_eq!(toaster.items()[1].detail, Some("very".to_owned()));
    toaster.dismiss(first);
    toaster.dismiss(first);
    assert_eq!(toaster.items().len(), 1);
    assert_eq!(toaster.items()[0].id, second);
    assert_eq!(toaster.success("again"), 3);
    assert_eq!(Level::Success.class(), "toast toast--success");
    assert_eq!(Level::Error.class(), "toast toast--error");
}

#[test]
fn a_failed_call_names_its_first_problem() {
    let mut toaster = Toaster::default();
    let mut failed = error(422, "the configuration is invalid");
    toaster.error("Could not save", &failed);
    failed.issues = vec![issue("rules[0]", "has no conditions"), issue("x", "y")];
    toaster.error("Could not save", &failed);
    let details: Vec<_> = toaster.items().iter().map(|toast| toast.detail.clone()).collect();
    assert_eq!(
        details,
        vec![
            Some("the configuration is invalid".to_owned()),
            Some("rules[0]: has no conditions".to_owned()),
        ]
    );
    let id = toaster.notify(Notice::success("done".to_owned()));
    assert_eq!(id, 3);
}

// ----------------------------------------------------------------- components

#[test]
fn icons_have_path_data() {
    assert_eq!(path_for("plus"), "<path d=\"M12 5v14M5 12h14\"/>");
    assert_eq!(path_for("check"), "<path d=\"m5 12.5 4.5 4.5L19 7\"/>");
    assert_eq!(path_for("unheard of"), "<circle cx=\"12\" cy=\"12\" r=\"9\"/>");
}

#[test]
fn the_focus_wraps_inside_a_dialog() {
    assert_eq!(trap("Tab", false, 3, Some(2)), Some(0));
    assert_eq!(trap("Tab", true, 3, Some(0)), Some(2));
    assert_eq!(trap("Tab", false, 3, Some(1)), None);
    assert_eq!(trap("Tab", true, 3, None), None);
    assert_eq!(trap("Tab", false, 1, Some(0)), Some(0));
    assert_eq!(trap("Tab", false, 0, None), None);
    assert_eq!(trap("a", false, 3, Some(2)), None);
    assert!(closes_dialog("Escape"));
    assert!(!closes_dialog("Esc"));
}

#[test]
fn a_destructive_action_takes_two_presses() {
    let mut asked = Confirmation::new();
    assert!(!asked.confirm());
    asked.arm();
    asked.cancel();
    assert!(!asked.confirm());
    asked.arm();
    assert!(asked.confirm());
    assert!(!asked.armed);
}

#[test]
fn placeholders_vary_in_width() {
    let widths: Vec<usize> = (0..4).map(skeleton_width).collect();
    assert_eq!(widths, vec![55, 68, 81, 59]);
    assert_eq!(copied("Key"), "Key copied");
}

#[test]
fn the_sidebar_is_blank_until_the_identity_is_known() {
    assert_eq!(avatar(None), "");
    assert_eq!(identity_name(None), "");
    assert_eq!(identity_org(None), "");
    let me = me("owner");
    assert_eq!(avatar(Some(&me)), "AD");
    assert_eq!(identity_name(Some(&me)), "ada@x");
    assert_eq!(identity_org(Some(&me)), "Acme \u{b7} owner");
}
