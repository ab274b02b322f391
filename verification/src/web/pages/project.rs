//! A project's flags, seen through one environment.

use vstd::prelude::*;

use crate::domain::{
    copy_rules, rule_models, Distribution, WeightedVariant,
};
use crate::text::{
    contains, decimal, decimal_text, digit, lowercase, maybe, occurs, same_text, to_lowercase,
};
use crate::web::api;
use crate::web::api::models::{ConfiguredFlag, Environment, Flag, FlagConfig};
use crate::web::api::{
    environment_path, loaded, project_path, resource_path, ApiError, Body, Call, ConfigBody, Load,
    Method, NewEnvironment, NewFlag,
};
use crate::web::pages::forms::KeyForm;
use crate::web::pages::{choose_environment, default_environment};
use crate::web::toast::{Level, Notice};

verus! {

/// The page of a project.
#[derive(Debug)]
pub struct ProjectDetail {
    pub environments: Load<Vec<Environment>>,
    pub selected: Option<String>,
    pub flags: Load<Vec<ConfiguredFlag>>,
    pub creating_flag: bool,
    pub creating_env: bool,
    pub filter: String,
}

/// What the page loads again.
#[derive(Debug, Clone, Copy, PartialEq, Eq, Structural)]
pub enum Reload {
    Flags,
    Environments,
}

/// The position of the first row of a flag.
pub open spec fn row_of(rows: Seq<ConfiguredFlag>, key: Seq<char>) -> Option<int>
    decreases rows.len(),
{
    if rows.len() == 0 {
        None
    } else {
        match row_of(rows.drop_last(), key) {
            Some(at) => Some(at),
            None => if rows.last().flag.key@ == key {
                Some(rows.len() - 1)
            } else {
                None
            },
        }
    }
}

proof fn row_stays(rows: Seq<ConfiguredFlag>, key: Seq<char>, to: int)
    requires
        0 <= to <= rows.len(),
        row_of(rows.take(to), key) is Some,
    ensures
        row_of(rows, key) == row_of(rows.take(to), key),
    decreases rows.len() - to,
{
    if to < rows.len() {
        assert(rows.take(to + 1).drop_last() =~= rows.take(to));
        row_stays(rows, key, to + 1);
    } else {
        assert(rows.take(to) =~= rows);
    }
}

/// The position of the first row of a flag.
pub fn find_row(rows: &Vec<ConfiguredFlag>, key: &str) -> (at: Option<usize>)
    ensures
        match at {
            Some(i) => i < rows.len() && row_of(rows@, key@) == Some(i as int)
                && rows@[i as int].flag.key@ == key@,
            None => row_of(rows@, key@) is None,
        },
{
    for i in 0..rows.len()
        invariant
            row_of(rows@.take(i as int), key@) is None,
    {
        assert(rows@.take(i + 1).drop_last() =~= rows@.take(i as int));
        if same_text(rows[i].flag.key.as_str(), key) {
            proof {
                row_stays(rows@, key@, i + 1);
            }
            return Some(i);
        }
    }
    assert(rows@.take(rows.len() as int) =~= rows@);
    None
}

/// Rows in which the first one of a flag has another configuration.
pub open spec fn reconfigured(
    rows: Seq<ConfiguredFlag>,
    key: Seq<char>,
    config: FlagConfig,
) -> Seq<ConfiguredFlag> {
    match row_of(rows, key) {
        Some(at) => rows.update(at, ConfiguredFlag { flag: rows[at].flag, config }),
        None => rows,
    }
}

/// Rows in which the first one of a flag is on or off.
pub open spec fn switched(rows: Seq<ConfiguredFlag>, key: Seq<char>, enabled: bool) -> Seq<
    ConfiguredFlag,
> {
    match row_of(rows, key) {
        Some(at) => reconfigured(rows, key, FlagConfig { enabled, ..rows[at].config }),
        None => rows,
    }
}

/// Whether what is loaded went from some rows to others; anything but rows is
/// left alone.
pub open spec fn rows_become(
    before: Load<Vec<ConfiguredFlag>>,
    after: Load<Vec<ConfiguredFlag>>,
    rows: spec_fn(Seq<ConfiguredFlag>) -> Seq<ConfiguredFlag>,
) -> bool {
    match before {
        Load::Ready(list) => after matches Load::Ready(changed) && changed@ == rows(list@),
        _ => after == before,
    }
}

/// Whether a row is shown under a filter. Case does not matter.
pub open spec fn is_shown(row: ConfiguredFlag, filter: Seq<char>) -> bool {
    ||| lowercase(filter).len() == 0
    ||| occurs(lowercase(row.flag.key@), lowercase(filter))
    ||| occurs(lowercase(row.flag.name@), lowercase(filter))
}

/// The positions of the rows that are shown under a filter, in order.
pub open spec fn shown(rows: Seq<ConfiguredFlag>, filter: Seq<char>) -> Seq<int>
    decreases rows.len(),
{
    if rows.len() == 0 {
        Seq::empty()
    } else {
        let before = shown(rows.drop_last(), filter);
        if is_shown(rows.last(), filter) {
            before.push(rows.len() - 1)
        } else {
            before
        }
    }
}

/// Whether a request rewrites the configuration of a row, turned on or off and
/// otherwise as the row has it, guarded by the row's version.
pub open spec fn writes_switch(
    call: Call<'_>,
    token: Seq<char>,
    project: Seq<char>,
    environment: Seq<char>,
    row: ConfiguredFlag,
    enabled: bool,
) -> bool {
    &&& call.is(
        Method::Put,
        resource_path(project, environment, "/flags"@, row.flag.key@),
        Some(token),
    )
    &&& call.body matches Body::Config(body)
    &&& body.enabled == enabled
    &&& body.off_variant@ == row.config.off_variant@
    &&& body.fallthrough@ == row.config.fallthrough@
    &&& rule_models(body.rules@) == rule_models(row.config.rules@)
    &&& body.expected_version == row.config.version
}

impl ProjectDetail {
    pub fn new() -> (page: ProjectDetail)
        ensures
            page.environments is Loading,
            page.selected is None,
            page.flags is Loading,
            !page.creating_flag,
            !page.creating_env,
            page.filter@.len() == 0,
    {
        ProjectDetail {
            environments: Load::Loading,
            selected: None,
            flags: Load::Loading,
            creating_flag: false,
            creating_env: false,
            filter: String::new(),
        }
    }

    /// Asks for the environments.
    pub fn load_environments<'a>(&mut self, token: Option<&'a str>, project: &str) -> (call: Option<
        Call<'a>,
    >)
        ensures
            match token {
                Some(token) => {
                    &&& *final(self) == (ProjectDetail {
                        environments: Load::Loading,
                        ..*old(self)
                    })
                    &&& call matches Some(call) && call.is(
                        Method::Get,
                        project_path(project@) + "/environments"@,
                        Some(token@),
                    ) && call.body == Body::Nothing
                },
                None => *final(self) == *old(self) && call is None,
            },
    {
        match token {
            Some(token) => {
                self.environments = Load::Loading;
                Some(api::list_environments(token, project))
            },
            None => None,
        }
    }

    /// What the server said of the environments. The production one is the one
    /// whose state people need to know.
    pub fn environments_loaded(&mut self, answer: Result<Vec<Environment>, ApiError>)
        ensures
            *final(self) == (ProjectDetail {
                environments: loaded(answer),
                selected: final(self).selected,
                ..*old(self)
            }),
            match answer {
                Ok(list) => maybe(final(self).selected) == default_environment(list@),
                Err(_) => final(self).selected == old(self).selected,
            },
    {
        if let Ok(list) = &answer {
            self.selected = choose_environment(list);
        }
        self.environments = Load::from(answer);
    }

    /// Goes to another environment.
    pub fn select(&mut self, key: String)
        ensures
            *final(self) == (ProjectDetail { selected: Some(key), ..*old(self) }),
    {
        self.selected = Some(key);
    }

    /// Asks for the flags as the selected environment has them. Without an
    /// environment there are none.
    pub fn load_flags<'a>(&mut self, token: Option<&'a str>, project: &str) -> (call: Option<
        Call<'a>,
    >)
        ensures
            match (token, old(self).selected) {
                (Some(token), Some(environment)) => {
                    &&& *final(self) == (ProjectDetail { flags: Load::Loading, ..*old(self) })
                    &&& call matches Some(call) && call.is(
                        Method::Get,
                        environment_path(project@, environment@, "/flags"@),
                        Some(token@),
                    ) && call.body == Body::Nothing
                },
                (Some(_), None) => {
                    &&& *final(self) == (ProjectDetail { flags: final(self).flags, ..*old(self) })
                    &&& final(self).flags matches Load::Ready(list) && list@.len() == 0
                    &&& call is None
                },
                (None, _) => *final(self) == *old(self) && call is None,
            },
    {
        match token {
            Some(token) => match &self.selected {
                Some(environment) => {
                    let call = api::list_configured(token, project, environment.as_str());
                    self.flags = Load::Loading;
                    Some(call)
                },
                None => {
                    self.flags = Load::Ready(Vec::new());
                    None
                },
            },
            None => None,
        }
    }

    /// What the server said of the flags.
    pub fn flags_loaded(&mut self, answer: Result<Vec<ConfiguredFlag>, ApiError>)
        ensures
            *final(self) == (ProjectDetail { flags: loaded(answer), ..*old(self) }),
    {
        self.flags = Load::from(answer);
    }

    /// Turns a flag on or off: at once on screen, and by a guarded write on the
    /// server. `row` is the flag as it was shown.
    pub fn toggle<'a>(&mut self, token: Option<&'a str>, project: &str, row: &ConfiguredFlag) -> (
    call: Option<Call<'a>>)
        ensures
            *final(self) == (ProjectDetail { flags: final(self).flags, ..*old(self) }),
            match (token, old(self).selected) {
                (Some(token), Some(environment)) => {
                    &&& rows_become(
                        old(self).flags,
                        final(self).flags,
                        |rows: Seq<ConfiguredFlag>|
                            switched(rows, row.flag.key@, !row.config.enabled),
                    )
                    &&& call matches Some(call) && writes_switch(
                        call,
                        token@,
                        project@,
                        environment@,
                        *row,
                        !row.config.enabled,
                    )
                    &&& call->0.body matches Body::Config(body)
                    &&& body.enabled == !row.config.enabled
                    &&& body.off_variant@ == row.config.off_variant@
                    &&& body.fallthrough@ == row.config.fallthrough@
                    &&& body.rules@.len() == row.config.rules@.len()
                    &&& body.expected_version == row.config.version
                },
                _ => final(self).flags == old(self).flags && call is None,
            },
    {
        let next: bool = !row.config.enabled;
        let call = match (token, &self.selected) {
            (Some(token), Some(environment)) => Some(
                api::put_config(
                    token,
                    project,
                    environment.as_str(),
                    row.flag.key.as_str(),
                    ConfigBody {
                        enabled: next,
                        off_variant: row.config.off_variant.clone(),
                        fallthrough: row.config.fallthrough.clone(),
                        rules: copy_rules(&row.config.rules),
                        expected_version: row.config.version,
                    },
                ),
            ),
            _ => None,
        };
        proof {
            if call is Some {
                a_switch_sends_the_rest_unchanged(
                    call->0,
                    token->0@,
                    project@,
                    self.selected->0@,
                    *row,
                    next,
                );
            }
        }
        if call.is_some() {
            match &mut self.flags {
                Load::Ready(list) => {
                    let ghost before = list@;
                    if let Some(at) = find_row(list, row.flag.key.as_str()) {
                        let shown = &mut list[at];
                        shown.config.enabled = next;
                    }
                    assert(list@ =~= switched(before, row.flag.key@, next));
                },
                _ => {},
            }
        }
        call
    }

    /// What the server said of a switch, of `flag` in `environment`, to `next`.
    /// Says what to report, and whether to load the flags again, which is how a
    /// refused switch goes back.
    pub fn toggled(
        &mut self,
        answer: Result<FlagConfig, ApiError>,
        flag: &str,
        environment: &str,
        next: bool,
    ) -> (after: (Notice, bool))
        ensures
            *final(self) == (ProjectDetail { flags: final(self).flags, ..*old(self) }),
            match answer {
                Ok(config) => {
                    &&& rows_become(
                        old(self).flags,
                        final(self).flags,
                        |rows: Seq<ConfiguredFlag>| reconfigured(rows, flag@, config),
                    )
                    &&& after.0.succeeds(
                        flag@ + " is now "@ + (if next {
                            "on"@
                        } else {
                            "off"@
                        }) + " in "@ + environment@,
                    )
                    &&& !after.1
                },
                Err(error) => {
                    &&& final(self).flags == old(self).flags
                    &&& if error.status == 409 {
                        after.0.says(
                            Level::Error,
                            "Someone else changed this flag"@,
                            "Reloaded the latest configuration \u{2014} try again."@,
                        )
                    } else {
                        after.0.fails("Could not change the flag"@, error)
                    }
                    &&& after.1
                },
            },
    {
        match answer {
            Ok(config) => {
                let ghost kept = config;
                match &mut self.flags {
                    Load::Ready(list) => {
                        let ghost before = list@;
                        if let Some(at) = find_row(list, flag) {
                            let shown = &mut list[at];
                            shown.config = config;
                        }
                        assert(list@ =~= reconfigured(before, flag@, kept));
                    },
                    _ => {},
                }
                let mut title: String = flag.to_owned();
                title.append(" is now ");
                if next {
                    title.append("on");
                } else {
                    title.append("off");
                }
                title.append(" in ");
                title.append(environment);
                (Notice::success(title), false)
            },
            Err(error) => if error.is_conflict() {
                (
                    Notice::message(
                        Level::Error,
                        "Someone else changed this flag",
                        "Reloaded the latest configuration \u{2014} try again.",
                    ),
                    true,
                )
            } else {
                (Notice::error("Could not change the flag", &error), true)
            },
        }
    }

    /// The positions of the flags that are shown under the filter, in order.
    pub fn visible(&self) -> (positions: Vec<usize>)
        ensures
            match self.flags {
                Load::Ready(list) => positions@.map_values(|p: usize| p as int) == shown(
                    list@,
                    self.filter@,
                ),
                _ => positions@.len() == 0,
            },
    {
        let mut positions: Vec<usize> = Vec::new();
        let needle = to_lowercase(self.filter.as_str());
        match &self.flags {
            Load::Ready(list) => {
                assert(positions@.map_values(|p: usize| p as int) =~= shown(
                    list@.take(0),
                    self.filter@,
                ));
                for i in 0..list.len()
                    invariant
                        needle@ == lowercase(self.filter@),
                        positions@.map_values(|p: usize| p as int) == shown(
                            list@.take(i as int),
                            self.filter@,
                        ),
                {
                    let ghost before = positions@;
                    assert(list@.take(i + 1).drop_last() =~= list@.take(i as int));
                    let row = &list[i];
                    if needle.as_str().unicode_len() == 0 || contains(
                        to_lowercase(row.flag.key.as_str()).as_str(),
                        needle.as_str(),
                    ) || contains(
                        to_lowercase(row.flag.name.as_str()).as_str(),
                        needle.as_str(),
                    ) {
                        positions.push(i);
                        assert(positions@.map_values(|p: usize| p as int)
                            =~= before.map_values(|p: usize| p as int).push(i as int));
                    }
                }
                assert(list@.take(list.len() as int) =~= list@);
            },
            _ => {},
        }
        positions
    }

    /// What is said where nothing is shown.
    pub fn empty_title(&self) -> (text: &'static str)
        ensures
            text@ == (if self.filter@.len() == 0 {
                "No flags yet"@
            } else {
                "Nothing matches that filter"@
            }),
    {
        if self.filter.as_str().unicode_len() == 0 {
            "No flags yet"
        } else {
            "Nothing matches that filter"
        }
    }

    /// A flag was created: the dialog closes, and the flags are loaded again.
    pub fn flag_created(&mut self, key: &str) -> (after: (Notice, Reload))
        ensures
            *final(self) == (ProjectDetail { creating_flag: false, ..*old(self) }),
            after.0.succeeds("Flag \u{201c}"@ + key@ + "\u{201d} created, off everywhere"@),
            after.1 == Reload::Flags,
    {
        self.creating_flag = false;
        let mut title: String = "Flag \u{201c}".to_owned();
        title.append(key);
        title.append("\u{201d} created, off everywhere");
        (Notice::success(title), Reload::Flags)
    }

    /// An environment was created: the dialog closes, and the environments are
    /// loaded again.
    pub fn environment_created(&mut self, key: &str) -> (after: (Notice, Reload))
        ensures
            *final(self) == (ProjectDetail { creating_env: false, ..*old(self) }),
            after.0.succeeds("Environment \u{201c}"@ + key@ + "\u{201d} created"@),
            after.1 == Reload::Environments,
    {
        self.creating_env = false;
        let mut title: String = "Environment \u{201c}".to_owned();
        title.append(key);
        title.append("\u{201d} created");
        (Notice::success(title), Reload::Environments)
    }
}

/// Turning a flag on or off touches no other flag.
pub proof fn switching_touches_one_row(
    rows: Seq<ConfiguredFlag>,
    key: Seq<char>,
    enabled: bool,
    at: int,
)
    requires
        0 <= at < rows.len(),
        rows[at].flag.key@ != key,
    ensures
        switched(rows, key, enabled).len() == rows.len(),
        switched(rows, key, enabled)[at] == rows[at],
{
    row_has_its_key(rows, key);
}

proof fn row_has_its_key(rows: Seq<ConfiguredFlag>, key: Seq<char>)
    ensures
        row_of(rows, key) matches Some(at) ==> 0 <= at < rows.len() && rows[at].flag.key@ == key,
    decreases rows.len(),
{
    if rows.len() > 0 {
        row_has_its_key(rows.drop_last(), key);
    }
}

/// Every row that is shown fits the filter, and every row that fits is shown,
/// once and in order.
pub proof fn filtering_is_exact(rows: Seq<ConfiguredFlag>, filter: Seq<char>)
    ensures
        forall|p: int|
            shown(rows, filter).contains(p) <==> 0 <= p < rows.len() && is_shown(rows[p], filter),
        forall|i: int, j: int|
            0 <= i < j < shown(rows, filter).len() ==> shown(rows, filter)[i] < shown(
                rows,
                filter,
            )[j],
    decreases rows.len(),
{
    if rows.len() > 0 {
        let shorter = rows.drop_last();
        let before = shown(shorter, filter);
        let all = shown(rows, filter);
        filtering_is_exact(shorter, filter);
        assert forall|i: int| 0 <= i < before.len() implies 0 <= #[trigger] before[i]
            < shorter.len() by {
            assert(before.contains(before[i]));
        }
        assert forall|p: int| all.contains(p) <==> 0 <= p < rows.len() && is_shown(
            rows[p],
            filter,
        ) by {
            assert(before.contains(p) <==> 0 <= p < shorter.len() && is_shown(shorter[p], filter));
            if before.contains(p) {
                let i = choose|i: int| 0 <= i < before.len() && before[i] == p;
                assert(all[i] == p);
            }
            if p == rows.len() - 1 && is_shown(rows.last(), filter) {
                assert(all[before.len() as int] == p);
            }
            if all.contains(p) && !before.contains(p) {
                let i = choose|i: int| 0 <= i < all.len() && all[i] == p;
                assert(i == before.len()) by {
                    if i < before.len() {
                        assert(before[i] == p);
                    }
                }
            }
        }
    }
}

/// Deletes the project.
pub fn delete_project<'a>(token: Option<&'a str>, project: &str) -> (call: Option<Call<'a>>)
    ensures
        match token {
            Some(token) => call matches Some(call) && call.is(
                Method::Delete,
                project_path(project@),
                Some(token@),
            ) && call.body == Body::Nothing,
            None => call is None,
        },
{
    match token {
        Some(token) => Some(api::delete_project(token, project)),
        None => None,
    }
}

/// What the server said of deleting the project, and where to go afterwards.
pub fn project_deleted(answer: Result<(), ApiError>, project: &str) -> (next: (
    Notice,
    Option<&'static str>,
))
    ensures
        match answer {
            Ok(_) => {
                &&& next.0.succeeds("Project \u{201c}"@ + project@ + "\u{201d} deleted"@)
                &&& next.1 matches Some(route) && route@ == "/projects"@
            },
            Err(error) => next.0.fails("Could not delete the project"@, error) && next.1 is None,
        },
{
    match answer {
        Ok(_) => {
            let mut title: String = "Project \u{201c}".to_owned();
            title.append(project);
            title.append("\u{201d} deleted");
            (Notice::success(title), Some("/projects"))
        },
        Err(error) => (Notice::error("Could not delete the project", &error), None),
    }
}

// ------------------------------------------------------------------ flag summary

/// A share in percent, without zeros at its end: a thousandth of a percent is
/// the smallest there is.
pub open spec fn percent_words(weight: u32) -> Seq<char> {
    let whole = decimal((weight / 1000) as nat);
    let tenths = digit((weight / 100 % 10) as nat);
    let hundredths = digit((weight / 10 % 10) as nat);
    let thousandths = digit((weight % 10) as nat);
    if weight % 1000 == 0 {
        whole
    } else if weight % 100 == 0 {
        whole + seq!['.', tenths]
    } else if weight % 10 == 0 {
        whole + seq!['.', tenths, hundredths]
    } else {
        whole + seq!['.', tenths, hundredths, thousandths]
    }
}

/// A share in percent, without zeros at its end.
pub fn percent_text(weight: u32) -> (text: String)
    ensures
        text@ == percent_words(weight),
{
    let mut text = decimal_text((weight / 1000) as u64);
    if weight % 1000 != 0 {
        text.push('.');
        text.push((0x30 + (weight / 100 % 10) as u8) as char);
        if weight % 100 != 0 {
            text.push((0x30 + (weight / 10 % 10) as u8) as char);
            if weight % 10 != 0 {
                text.push((0x30 + (weight % 10) as u8) as char);
            }
        }
    }
    assert(text@ =~= percent_words(weight));
    text
}

/// The position of the largest share among those of other variants than `off`,
/// or among all; the last one where several are largest.
pub open spec fn largest(weights: Seq<WeightedVariant>, off: Option<Seq<char>>) -> Option<int>
    decreases weights.len(),
{
    if weights.len() == 0 {
        None
    } else {
        let last = weights.last();
        let before = largest(weights.drop_last(), off);
        if off == Some(last.variant@) {
            before
        } else {
            match before {
                Some(best) => if last.weight >= weights[best].weight {
                    Some(weights.len() - 1)
                } else {
                    before
                },
                None => Some(weights.len() - 1),
            }
        }
    }
}

/// The largest share is one of those asked for, and none of them is larger.
pub proof fn largest_is_largest(weights: Seq<WeightedVariant>, off: Option<Seq<char>>)
    ensures
        match largest(weights, off) {
            Some(best) => {
                &&& 0 <= best < weights.len()
                &&& off != Some(weights[best].variant@)
                &&& forall|i: int|
                    0 <= i < weights.len() && off != Some((#[trigger] weights[i]).variant@)
                        ==> weights[i].weight <= weights[best].weight
            },
            None => forall|i: int|
                0 <= i < weights.len() ==> off == Some((#[trigger] weights[i]).variant@),
        },
    decreases weights.len(),
{
    if weights.len() > 0 {
        let shorter = weights.drop_last();
        largest_is_largest(shorter, off);
        assert(forall|i: int| 0 <= i < shorter.len() ==> shorter[i] == weights[i]);
    }
}

fn find_largest(weights: &Vec<WeightedVariant>, off: Option<&str>) -> (at: Option<usize>)
    ensures
        match at {
            Some(i) => i < weights.len() && largest(weights@, match off {
                Some(off) => Some(off@),
                None => None,
            }) == Some(i as int),
            None => largest(weights@, match off {
                Some(off) => Some(off@),
                None => None,
            }) is None,
        },
{
    let ghost left_out: Option<Seq<char>> = match off {
        Some(off) => Some(off@),
        None => None,
    };
    let mut best: Option<usize> = None;
    for i in 0..weights.len()
        invariant
            left_out == (match off {
                Some(off) => Some(off@),
                None => None,
            }),
            match best {
                Some(b) => b < i && largest(weights@.take(i as int), left_out) == Some(b as int),
                None => largest(weights@.take(i as int), left_out) is None,
            },
    {
        assert(weights@.take(i + 1).drop_last() =~= weights@.take(i as int));
        let counts: bool = match off {
            Some(off) => !same_text(weights[i].variant.as_str(), off),
            None => true,
        };
        if counts {
            best =
            match best {
                Some(b) => if weights[i].weight >= weights[b].weight {
                    Some(i)
                } else {
                    Some(b)
                },
                None => Some(i),
            };
        }
    }
    assert(weights@.take(weights.len() as int) =~= weights@);
    best
}

/// The share a rollout is summed up by: how far the feature has gone, which is
/// the largest share that is not the off variant's, if there is any.
pub open spec fn headline(weights: Seq<WeightedVariant>, off: Seq<char>) -> Option<int> {
    match largest(weights, Some(off)) {
        Some(at) => Some(at),
        None => largest(weights, None),
    }
}

/// What those no rule matches get, in words.
pub open spec fn base_words(rules: int, fallthrough: Distribution, off: Seq<char>) -> Seq<char> {
    match fallthrough {
        Distribution::Fixed { variant } => if rules == 0 {
            "everyone gets "@ + variant@
        } else {
            variant@
        },
        Distribution::Rollout { weights, .. } => match headline(weights@, off) {
            Some(at) => percent_words(weights@[at].weight) + "% "@ + weights@[at].variant@,
            None => "rollout"@,
        },
    }
}

/// One line on what a flag is doing.
pub open spec fn targeting_words(
    rules: nat,
    fallthrough: Distribution,
    off: Seq<char>,
    enabled: bool,
) -> Seq<char> {
    let base = base_words(rules as int, fallthrough, off);
    if !enabled {
        "\u{2014}"@
    } else if rules == 0 {
        base
    } else if rules == 1 {
        "1 rule, then "@ + base
    } else {
        decimal(rules) + " rules, then "@ + base
    }
}

fn base_text(rules: usize, fallthrough: &Distribution, off_variant: &str) -> (text: String)
    ensures
        text@ == base_words(rules as int, *fallthrough, off_variant@),
{
    match fallthrough {
        Distribution::Fixed { variant } => if rules == 0 {
            let mut text: String = "everyone gets ".to_owned();
            text.append(variant.as_str());
            text
        } else {
            variant.clone()
        },
        Distribution::Rollout { weights, .. } => {
            let found: Option<usize> = match find_largest(weights, Some(off_variant)) {
                Some(at) => Some(at),
                None => find_largest(weights, None),
            };
            match found {
                Some(at) => {
                    let mut text = percent_text(weights[at].weight);
                    text.append("% ");
                    text.append(weights[at].variant.as_str());
                    text
                },
                None => "rollout".to_owned(),
            }
        },
    }
}

/// One line on what a flag is doing, so that the list answers the question
/// without opening every flag.
pub fn describe_targeting(
    rules: usize,
    fallthrough: &Distribution,
    off_variant: &str,
    enabled: bool,
) -> (text: String)
    ensures
        text@ == targeting_words(rules as nat, *fallthrough, off_variant@, enabled),
{
    if !enabled {
        return "\u{2014}".to_owned();
    }
    let base = base_text(rules, fallthrough, off_variant);
    if rules == 0 {
        base
    } else if rules == 1 {
        let mut text: String = "1 rule, then ".to_owned();
        text.append(base.as_str());
        text
    } else {
        let mut text = decimal_text(rules as u64);
        text.append(" rules, then ");
        text.append(base.as_str());
        text
    }
}

/// The badge of a flag that is on or off: how it is styled, and what it says.
pub fn enabled_badge(enabled: bool) -> (badge: (&'static str, &'static str))
    ensures
        enabled ==> badge.0@ == "badge badge--on"@ && badge.1@ == "On"@,
        !enabled ==> badge.0@ == "badge badge--off"@ && badge.1@ == "Off"@,
{
    if enabled {
        ("badge badge--on", "On")
    } else {
        ("badge badge--off", "Off")
    }
}

/// Where a flag's row leads.
pub fn flag_href(project: &str, flag: &str) -> (href: String)
    ensures
        href@ == project_path(project@) + "/flags/"@ + flag@,
{
    let mut href: String = "/projects/".to_owned();
    href.append(project);
    href.append("/flags/");
    href.append(flag);
    href
}

// ------------------------------------------------------------------------ dialogs

/// Sends the form of a new flag. The server makes it an on/off flag that is off
/// in every environment.
pub fn create_flag<'a>(form: &'a mut KeyForm, token: Option<&'a str>, project: &str) -> (call:
    Option<Call<'a>>)
    ensures
        *final(form) == (KeyForm { busy: true, ..*old(form) }),
        match (old(form).busy, token) {
            (false, Some(token)) => {
                &&& call matches Some(call)
                &&& call.is(Method::Post, project_path(project@) + "/flags"@, Some(token@))
                &&& call.body matches Body::Flag(body)
                &&& body.key@ == old(form).key@
                &&& body.name@ == old(form).name@
                &&& body.description is None
                &&& body.variants is None
                &&& body.off_variant is None
                &&& body.fallthrough is None
            },
            _ => call is None,
        },
{
    if !form.begin() {
        return None;
    }
    match token {
        Some(token) => Some(
            api::create_flag(
                token,
                project,
                NewFlag {
                    key: form.key.as_str(),
                    name: form.name.as_str(),
                    description: None,
                    variants: None,
                    off_variant: None,
                    fallthrough: None,
                },
            ),
        ),
        None => None,
    }
}

/// What the server said: the key of the new flag, or what went wrong.
pub fn flag_answered(form: &mut KeyForm, answer: Result<Flag, ApiError>) -> (outcome: Result<
    String,
    Notice,
>)
    ensures
        *final(form) == (KeyForm { busy: false, ..*old(form) }),
        match answer {
            Ok(flag) => outcome == Ok::<String, Notice>(flag.key),
            Err(error) => outcome matches Err(notice) && notice.fails(
                "Could not create the flag"@,
                error,
            ),
        },
{
    form.finish();
    match answer {
        Ok(flag) => Ok(flag.key),
        Err(error) => Err(Notice::error("Could not create the flag", &error)),
    }
}

/// Sends the form of a new environment.
pub fn create_environment<'a>(
    form: &'a mut KeyForm,
    is_production: bool,
    token: Option<&'a str>,
    project: &str,
) -> (call: Option<Call<'a>>)
    ensures
        *final(form) == (KeyForm { busy: true, ..*old(form) }),
        match (old(form).busy, token) {
            (false, Some(token)) => {
                &&& call matches Some(call)
                &&& call.is(Method::Post, project_path(project@) + "/environments"@, Some(token@))
                &&& call.body matches Body::Environment(body)
                &&& body.key@ == old(form).key@
                &&& body.name@ == old(form).name@
                &&& body.is_production == is_production
            },
            _ => call is None,
        },
{
    if !form.begin() {
        return None;
    }
    match token {
        Some(token) => Some(
            api::create_environment(
                token,
                project,
                NewEnvironment {
                    key: form.key.as_str(),
                    name: form.name.as_str(),
                    is_production,
                },
            ),
        ),
        None => None,
    }
}

/// What the server said: the key of the new environment, or what went wrong.
pub fn environment_answered(form: &mut KeyForm, answer: Result<Environment, ApiError>) -> (outcome:
    Result<String, Notice>)
    ensures
        *final(form) == (KeyForm { busy: false, ..*old(form) }),
        match answer {
            Ok(environment) => outcome == Ok::<String, Notice>(environment.key),
            Err(error) => outcome matches Err(notice) && notice.fails(
                "Could not create the environment"@,
                error,
            ),
        },
{
    form.finish();
    match answer {
        Ok(environment) => Ok(environment.key),
        Err(error) => Err(Notice::error("Could not create the environment", &error)),
    }
}

// ------------------------------------------------------------------- the meaning

/// The row of a flag is the first with its key.
pub proof fn the_first_row_with_a_key_is_found(rows: Seq<ConfiguredFlag>, key: Seq<char>)
    ensures
        match row_of(rows, key) {
            Some(at) => {
                &&& 0 <= at < rows.len()
                &&& rows[at].flag.key@ == key
                &&& forall|i: int| 0 <= i < at ==> (#[trigger] rows[i]).flag.key@ != key
            },
            None => forall|i: int| 0 <= i < rows.len() ==> (#[trigger] rows[i]).flag.key@ != key,
        },
    decreases rows.len(),
{
    if rows.len() > 0 {
        let shorter = rows.drop_last();
        the_first_row_with_a_key_is_found(shorter, key);
        assert(forall|i: int| 0 <= i < shorter.len() ==> shorter[i] == rows[i]);
    }
}

/// Switching a flag turns its row on or off as asked and changes nothing else of
/// it, and no other row. `at` is the first row with the key.
pub proof fn a_switch_turns_one_row(
    before: Load<Vec<ConfiguredFlag>>,
    after: Load<Vec<ConfiguredFlag>>,
    key: Seq<char>,
    enabled: bool,
    at: int,
)
    requires
        rows_become(before, after, |rows: Seq<ConfiguredFlag>| switched(rows, key, enabled)),
        before matches Load::Ready(list) && 0 <= at < list@.len() && list@[at].flag.key@ == key
            && forall|i: int| 0 <= i < at ==> (#[trigger] list@[i]).flag.key@ != key,
    ensures
        ({
            let rows = before->Ready_0@;
            &&& after matches Load::Ready(changed)
            &&& changed@.len() == rows.len()
            &&& forall|i: int| 0 <= i < rows.len() && i != at ==> #[trigger] changed@[i] == rows[i]
            &&& changed@[at].flag == rows[at].flag
            &&& changed@[at].config.enabled == enabled
            &&& changed@[at].config.flag_id == rows[at].config.flag_id
            &&& changed@[at].config.environment_id == rows[at].config.environment_id
            &&& changed@[at].config.off_variant == rows[at].config.off_variant
            &&& changed@[at].config.fallthrough == rows[at].config.fallthrough
            &&& changed@[at].config.rules == rows[at].config.rules
            &&& changed@[at].config.version == rows[at].config.version
        }),
{
    the_first_row_with_a_key_is_found(before->Ready_0@, key);
}

/// A configuration that was answered replaces that of the flag's row, and changes
/// no other row. `at` is the first row with the key.
pub proof fn an_answer_replaces_one_configuration(
    before: Load<Vec<ConfiguredFlag>>,
    after: Load<Vec<ConfiguredFlag>>,
    key: Seq<char>,
    config: FlagConfig,
    at: int,
)
    requires
        rows_become(before, after, |rows: Seq<ConfiguredFlag>| reconfigured(rows, key, config)),
        before matches Load::Ready(list) && 0 <= at < list@.len() && list@[at].flag.key@ == key
            && forall|i: int| 0 <= i < at ==> (#[trigger] list@[i]).flag.key@ != key,
    ensures
        ({
            let rows = before->Ready_0@;
            &&& after matches Load::Ready(changed)
            &&& changed@.len() == rows.len()
            &&& forall|i: int| 0 <= i < rows.len() && i != at ==> #[trigger] changed@[i] == rows[i]
            &&& changed@[at].flag == rows[at].flag
            &&& changed@[at].config == config
        }),
{
    the_first_row_with_a_key_is_found(before->Ready_0@, key);
}

/// A flag that has no row changes none, and what is not loaded stays as it is.
pub proof fn an_unknown_flag_changes_no_row(
    before: Load<Vec<ConfiguredFlag>>,
    after: Load<Vec<ConfiguredFlag>>,
    key: Seq<char>,
    enabled: bool,
)
    requires
        rows_become(before, after, |rows: Seq<ConfiguredFlag>| switched(rows, key, enabled)),
        before matches Load::Ready(list) ==> forall|i: int|
            0 <= i < list@.len() ==> (#[trigger] list@[i]).flag.key@ != key,
    ensures
        before matches Load::Ready(list) ==> after matches Load::Ready(same) && same@ == list@,
        !(before is Ready) ==> after == before,
{
    if let Load::Ready(list) = before {
        the_first_row_with_a_key_is_found(list@, key);
    }
}

/// A switch sends the row's configuration with nothing changed but whether it is
/// on, guarded by the row's version.
pub proof fn a_switch_sends_the_rest_unchanged(
    call: Call<'_>,
    token: Seq<char>,
    project: Seq<char>,
    environment: Seq<char>,
    row: ConfiguredFlag,
    enabled: bool,
)
    requires
        writes_switch(call, token, project, environment, row, enabled),
    ensures
        call.method == Method::Put,
        call.body matches Body::Config(body) && {
            &&& body.enabled == enabled
            &&& body.off_variant@ == row.config.off_variant@
            &&& body.fallthrough@ == row.config.fallthrough@
            &&& body.rules@.len() == row.config.rules@.len()
            &&& forall|i: int|
                0 <= i < row.config.rules@.len() ==> (#[trigger] body.rules@[i])@
                    == row.config.rules@[i]@
            &&& body.expected_version == row.config.version
        },
{
    let sent = call.body->Config_0;
    let x = rule_models(sent.rules@);
    let y = rule_models(row.config.rules@);
    assert(x.len() == sent.rules@.len() && y.len() == row.config.rules@.len());
    assert forall|i: int| 0 <= i < row.config.rules@.len() implies (#[trigger] sent.rules@[i])@
        == row.config.rules@[i]@ by {
        assert(x[i] == y[i]);
    }
}

/// A row is shown exactly where the filter is empty or stands, in any case, in the
/// flag's key or name.
pub proof fn a_filter_looks_at_key_and_name(row: ConfiguredFlag, filter: Seq<char>)
    ensures
        is_shown(row, filter) <==> (lowercase(filter).len() == 0 || occurs(
            lowercase(row.flag.key@),
            lowercase(filter),
        ) || occurs(lowercase(row.flag.name@), lowercase(filter))),
{
}

/// A share in percent is its whole percents, then a point and up to three digits,
/// of which the last is no zero; a whole number of percents has no point.
pub proof fn percents_have_no_idle_zeros(weight: u32)
    ensures
        ({
            let whole = decimal((weight / 1000) as nat);
            let text = percent_words(weight);
            let point = whole.len() as int;
            &&& weight % 1000 == 0 ==> text == whole
            &&& weight % 1000 != 0 ==> {
                &&& text.take(point) == whole
                &&& text[point] == '.'
                &&& point + 1 < text.len() <= point + 4
                &&& text.last() != '0'
                &&& text[point + 1] as int == 48 + weight / 100 % 10
                &&& text.len() > point + 2 ==> text[point + 2] as int == 48 + weight / 10 % 10
                &&& text.len() > point + 3 ==> text[point + 3] as int == 48 + weight % 10
                &&& text.len() == point + 2 ==> weight % 100 == 0
                &&& text.len() == point + 3 ==> weight % 10 == 0
            }
        }),
{
    let whole = decimal((weight / 1000) as nat);
    let text = percent_words(weight);
    if weight % 1000 != 0 {
        assert(text.take(whole.len() as int) =~= whole);
        assert(weight % 1000 == 100 * (weight / 100 % 10) + weight % 100);
        assert(weight % 100 == 10 * (weight / 10 % 10) + weight % 10);
    }
}

/// A rollout is summed up by the largest share that is not the off variant's, the
/// last of several.
pub proof fn a_rollout_is_summed_up_by_its_largest_share(
    weights: Vec<WeightedVariant>,
    bucket_by: Option<String>,
    off: Seq<char>,
    rules: int,
    at: int,
)
    requires
        0 <= at < weights@.len(),
        weights@[at].variant@ != off,
        forall|i: int|
            0 <= i < weights@.len() && (#[trigger] weights@[i]).variant@ != off
                ==> weights@[i].weight <= weights@[at].weight,
        forall|i: int|
            at < i < weights@.len() && (#[trigger] weights@[i]).variant@ != off
                ==> weights@[i].weight < weights@[at].weight,
    ensures
        base_words(rules, Distribution::Rollout { weights, bucket_by }, off) == percent_words(
            weights@[at].weight,
        ) + "% "@ + weights@[at].variant@,
{
    largest_is_largest(weights@, Some(off));
    the_last_of_the_largest_counts(weights@, Some(off));
    let best = largest(weights@, Some(off))->0;
    assert(weights@[best].weight == weights@[at].weight);
    assert(best == at);
}

proof fn the_last_of_the_largest_counts(weights: Seq<WeightedVariant>, off: Option<Seq<char>>)
    ensures
        largest(weights, off) matches Some(best) ==> forall|i: int|
            best < i < weights.len() && off != Some((#[trigger] weights[i]).variant@)
                ==> weights[i].weight < weights[best].weight,
    decreases weights.len(),
{
    if weights.len() > 0 {
        let shorter = weights.drop_last();
        the_last_of_the_largest_counts(shorter, off);
        largest_is_largest(shorter, off);
        assert(forall|i: int| 0 <= i < shorter.len() ==> shorter[i] == weights[i]);
    }
}

/// Where nothing but the off variant has a share, a rollout is summed up by that,
/// and one without shares by its name.
pub proof fn a_rollout_to_nobody_is_summed_up(
    weights: Vec<WeightedVariant>,
    bucket_by: Option<String>,
    off: Seq<char>,
    rules: int,
    at: int,
)
    requires
        forall|i: int| 0 <= i < weights@.len() ==> (#[trigger] weights@[i]).variant@ == off,
        weights@.len() > 0 ==> 0 <= at < weights@.len(),
        forall|i: int|
            0 <= i < weights@.len() ==> (#[trigger] weights@[i]).weight <= weights@[at].weight,
        forall|i: int|
            at < i < weights@.len() ==> (#[trigger] weights@[i]).weight < weights@[at].weight,
    ensures
        base_words(rules, Distribution::Rollout { weights, bucket_by }, off) == (if weights@.len()
            == 0 {
            "rollout"@
        } else {
            percent_words(weights@[at].weight) + "% "@ + off
        }),
{
    largest_is_largest(weights@, Some(off));
    largest_is_largest(weights@, None);
    the_last_of_the_largest_counts(weights@, None);
    if weights@.len() > 0 {
        assert(weights@[at].variant@ == off);
        let best = largest(weights@, None)->0;
        assert(weights@[best].weight == weights@[at].weight);
        assert(best == at);
    }
}

/// A flag is summed up in one line: nothing where it is off, otherwise its rules,
/// if it has any, and then what those get whom no rule matches.
pub proof fn a_flag_is_summed_up(
    rules: nat,
    fallthrough: Distribution,
    variant: String,
    off: Seq<char>,
)
    ensures
        targeting_words(rules, fallthrough, off, false) == "\u{2014}"@,
        rules == 0 ==> targeting_words(rules, fallthrough, off, true) == base_words(
            0,
            fallthrough,
            off,
        ),
        rules == 1 ==> targeting_words(rules, fallthrough, off, true) == "1 rule, then "@
            + base_words(1, fallthrough, off),
        rules > 1 ==> targeting_words(rules, fallthrough, off, true) == decimal(rules)
            + " rules, then "@ + base_words(rules as int, fallthrough, off),
        base_words(0, Distribution::Fixed { variant }, off) == "everyone gets "@ + variant@,
        rules > 0 ==> base_words(rules as int, Distribution::Fixed { variant }, off) == variant@,
{
}

} // verus!
