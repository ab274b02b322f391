//! Experiments for one environment, and their judged results.

use vstd::prelude::*;

use crate::domain::{
    copy_variants, position_of, Variant, VariantResult,
};
use crate::text::{beginning, maybe, same_text, start_of, texts};
use crate::web::api;
use crate::web::api::models::{ConfiguredFlag, Environment, Experiment, ExperimentResults};
use crate::web::api::{
    environment_path, loaded, resource_path, ApiError, Body, Call, Load, Method, NewExperiment,
};
use crate::web::pages::forms::KeyForm;
use crate::web::pages::project::{find_row, row_of};
use crate::web::pages::rollout::color_of;
use crate::web::pages::{choose_environment, default_environment, Next};
use crate::web::toast::Notice;

verus! {

/// The page of the experiments.
#[derive(Debug)]
pub struct Experiments {
    pub environments: Load<Vec<Environment>>,
    pub selected: Option<String>,
    pub experiments: Load<Vec<Experiment>>,
    /// The results that are shown, once an experiment was opened.
    pub opened: Option<Load<ExperimentResults>>,
    pub opened_key: Option<String>,
    pub creating: bool,
}

/// Which way an experiment is moved.
#[derive(Debug, Clone, Copy, PartialEq, Eq, Structural)]
pub enum Action {
    Start,
    Stop,
}

impl Action {
    /// How a move is written in a request.
    pub open spec fn name(self) -> Seq<char> {
        match self {
            Action::Start => "start"@,
            Action::Stop => "stop"@,
        }
    }

    pub fn as_str(self) -> (text: &'static str)
        ensures
            text@ == self.name(),
            self == Action::Start ==> text@ == "start"@,
            self == Action::Stop ==> text@ == "stop"@,
    {
        match self {
            Action::Start => "start",
            Action::Stop => "stop",
        }
    }
}

/// Whether a request asks for the results of an experiment.
pub open spec fn asks_for_results(
    call: Call<'_>,
    token: Seq<char>,
    project: Seq<char>,
    environment: Seq<char>,
    key: Seq<char>,
) -> bool {
    &&& call.is(
        Method::Get,
        resource_path(project, environment, "/experiments"@, key) + "/results"@,
        Some(token),
    )
    &&& call.body == Body::Nothing
}

impl Experiments {
    pub fn new() -> (page: Experiments)
        ensures
            page == (Experiments {
                environments: Load::Loading,
                selected: None,
                experiments: Load::Loading,
                opened: None,
                opened_key: None,
                creating: false,
            }),
    {
        Experiments {
            environments: Load::Loading,
            selected: None,
            experiments: Load::Loading,
            opened: None,
            opened_key: None,
            creating: false,
        }
    }

    /// What the server said of the environments.
    pub fn environments_loaded(&mut self, answer: Result<Vec<Environment>, ApiError>)
        ensures
            *final(self) == (Experiments {
                environments: loaded(answer),
                selected: final(self).selected,
                ..*old(self)
            }),
            match answer {
                Ok(list) => maybe(final(self).selected) == default_environment(list@),
                Err(_) => final(self).selected == old(self).selected,
            },
    {
        if let Ok(list) = &answer {
            self.selected = choose_environment(list);
        }
        self.environments = Load::from(answer);
    }

    /// Goes to another environment.
    pub fn select(&mut self, key: String)
        ensures
            *final(self) == (Experiments { selected: Some(key), ..*old(self) }),
    {
        self.selected = Some(key);
    }

    /// Asks for the experiments of the selected environment.
    pub fn load_experiments<'a>(&mut self, token: Option<&'a str>, project: &str) -> (call: Option<
        Call<'a>,
    >)
        ensures
            match (token, old(self).selected) {
                (Some(token), Some(environment)) => {
                    &&& *final(self) == (Experiments { experiments: Load::Loading, ..*old(self) })
                    &&& call matches Some(call) && call.is(
                        Method::Get,
                        environment_path(project@, environment@, "/experiments"@),
                        Some(token@),
                    ) && call.body == Body::Nothing
                },
                _ => *final(self) == *old(self) && call is None,
            },
    {
        match (token, &self.selected) {
            (Some(token), Some(environment)) => {
                let call = api::list_experiments(token, project, environment.as_str());
                self.experiments = Load::Loading;
                Some(call)
            },
            _ => None,
        }
    }

    /// The environment changed: the results that are shown belong to the other
    /// one.
    pub fn environment_changed<'a>(&mut self, token: Option<&'a str>, project: &str) -> (call:
        Option<Call<'a>>)
        ensures
            match (token, old(self).selected) {
                (Some(token), Some(environment)) => {
                    &&& *final(self) == (Experiments {
                        opened: None,
                        opened_key: None,
                        experiments: Load::Loading,
                        ..*old(self)
                    })
                    &&& call matches Some(call) && call.is(
                        Method::Get,
                        environment_path(project@, environment@, "/experiments"@),
                        Some(token@),
                    ) && call.body == Body::Nothing
                },
                _ => *final(self) == (Experiments { opened: None, opened_key: None, ..*old(self) })
                    && call is None,
            },
    {
        self.close();
        self.load_experiments(token, project)
    }

    /// What the server said of the experiments.
    pub fn experiments_loaded(&mut self, answer: Result<Vec<Experiment>, ApiError>)
        ensures
            *final(self) == (Experiments { experiments: loaded(answer), ..*old(self) }),
    {
        self.experiments = Load::from(answer);
    }

    /// Opens the results of an experiment.
    pub fn open<'a>(&mut self, token: Option<&'a str>, project: &str, key: String) -> (call: Option<
        Call<'a>,
    >)
        ensures
            match (token, old(self).selected) {
                (Some(token), Some(environment)) => {
                    &&& *final(self) == (Experiments {
                        opened: Some(Load::Loading),
                        opened_key: Some(key),
                        ..*old(self)
                    })
                    &&& call matches Some(call) && asks_for_results(
                        call,
                        token@,
                        project@,
                        environment@,
                        key@,
                    )
                },
                _ => *final(self) == *old(self) && call is None,
            },
    {
        match (token, &self.selected) {
            (Some(token), Some(environment)) => {
                let call = api::experiment_results(
                    token,
                    project,
                    environment.as_str(),
                    key.as_str(),
                );
                self.opened_key = Some(key);
                self.opened = Some(Load::Loading);
                Some(call)
            },
            _ => None,
        }
    }

    /// What the server said of the results.
    pub fn results_loaded(&mut self, answer: Result<ExperimentResults, ApiError>)
        ensures
            *final(self) == (Experiments { opened: Some(loaded(answer)), ..*old(self) }),
    {
        self.opened = Some(Load::from(answer));
    }

    /// Closes the results.
    pub fn close(&mut self)
        ensures
            *final(self) == (Experiments { opened: None, opened_key: None, ..*old(self) }),
    {
        self.opened = None;
        self.opened_key = None;
    }

    /// Starts or stops an experiment.
    pub fn transition<'a>(
        &self,
        token: Option<&'a str>,
        project: &str,
        key: &str,
        action: Action,
    ) -> (call: Option<Call<'a>>)
        ensures
            match (token, self.selected) {
                (Some(token), Some(environment)) => call matches Some(call) && call.is(
                    Method::Post,
                    resource_path(project@, environment@, "/experiments"@, key@) + "/"@
                        + action.name(),
                    Some(token@),
                ) && call.body == Body::Null,
                _ => call is None,
            },
    {
        match (token, &self.selected) {
            (Some(token), Some(environment)) => Some(
                api::transition_experiment(
                    token,
                    project,
                    environment.as_str(),
                    key,
                    action.as_str(),
                ),
            ),
            _ => None,
        }
    }

    /// What the server said of a move of the experiment `key`: what to report,
    /// whether to load the list again, and whether to open the results again,
    /// which are those that are shown.
    pub fn transitioned(&self, answer: Result<Experiment, ApiError>, key: &str, action: Action) -> (
    after: (Notice, bool, bool))
        ensures
            match answer {
                Ok(_) => {
                    &&& after.0.succeeds(
                        match action {
                            Action::Start =>
                                "Experiment running \u{2014} SDKs will start recording"@,
                            Action::Stop => "Experiment stopped \u{2014} the results are final"@,
                        },
                    )
                    &&& after.1
                    &&& after.2 == (maybe(self.opened_key) == Some(key@))
                },
                Err(error) => after.0.fails("Could not change the experiment"@, error) && !after.1
                    && !after.2,
            },
    {
        match answer {
            Ok(_) => {
                let title: String = match action {
                    Action::Start =>
                        "Experiment running \u{2014} SDKs will start recording".to_owned(),
                    Action::Stop => "Experiment stopped \u{2014} the results are final".to_owned(),
                };
                let shown: bool = match &self.opened_key {
                    Some(opened) => same_text(opened.as_str(), key),
                    None => false,
                };
                (Notice::success(title), true, shown)
            },
            Err(error) => (Notice::error("Could not change the experiment", &error), false, false),
        }
    }

    /// Deletes an experiment.
    pub fn delete<'a>(&self, token: Option<&'a str>, project: &str, key: &str) -> (call: Option<
        Call<'a>,
    >)
        ensures
            match (token, self.selected) {
                (Some(token), Some(environment)) => call matches Some(call) && call.is(
                    Method::Delete,
                    resource_path(project@, environment@, "/experiments"@, key@),
                    Some(token@),
                ) && call.body == Body::Nothing,
                _ => call is None,
            },
    {
        match (token, &self.selected) {
            (Some(token), Some(environment)) => Some(
                api::delete_experiment(token, project, environment.as_str(), key),
            ),
            _ => None,
        }
    }

    /// What the server said of a deletion, and whether to load the list again.
    pub fn deleted(&mut self, answer: Result<(), ApiError>) -> (after: (Notice, bool))
        ensures
            match answer {
                Ok(_) => {
                    &&& *final(self) == (Experiments {
                        opened: None,
                        opened_key: None,
                        ..*old(self)
                    })
                    &&& after.0.succeeds("Experiment deleted"@)
                    &&& after.1
                },
                Err(error) => {
                    &&& *final(self) == *old(self)
                    &&& after.0.fails("Could not delete the experiment"@, error)
                    &&& !after.1
                },
            },
    {
        match answer {
            Ok(_) => {
                self.close();
                (Notice::success("Experiment deleted".to_owned()), true)
            },
            Err(error) => (Notice::error("Could not delete the experiment", &error), false),
        }
    }

    /// An experiment was created: the dialog closes, the list is loaded again,
    /// and the experiment is opened.
    pub fn created(&mut self, key: String) -> (next: Next)
        ensures
            *final(self) == (Experiments { creating: false, ..*old(self) }),
            next == Next::ReloadThenOpen(key),
    {
        self.creating = false;
        Next::ReloadThenOpen(key)
    }
}

/// The move a row offers: only a draft starts, and only what runs stops.
pub open spec fn offered(state: Seq<char>, can_write: bool) -> Option<Action> {
    if can_write && state == "draft"@ {
        Some(Action::Start)
    } else if can_write && state == "running"@ {
        Some(Action::Stop)
    } else {
        None
    }
}

/// The move a row offers.
pub fn offers(experiment: &Experiment, can_write: bool) -> (action: Option<Action>)
    ensures
        action == offered(experiment.state@, can_write),
        action == Some(Action::Start) <==> can_write && experiment.state@ == "draft"@,
        action == Some(Action::Stop) <==> can_write && experiment.state@ == "running"@,
{
    proof {
        reveal_strlit("draft");
        reveal_strlit("running");
        assert("draft"@[0] == 'd' && "running"@[0] == 'r');
    }
    if can_write && same_text(experiment.state.as_str(), "draft") {
        Some(Action::Start)
    } else if can_write && same_text(experiment.state.as_str(), "running") {
        Some(Action::Stop)
    } else {
        None
    }
}

/// A stopped experiment is offered no move: it cannot restart.
pub proof fn stopped_stays_stopped(can_write: bool)
    ensures
        offered("stopped"@, can_write) is None,
{
    reveal_strlit("stopped");
    reveal_strlit("draft");
    reveal_strlit("running");
    assert("stopped"@[0] == 's' && "draft"@[0] == 'd' && "running"@[0] == 'r');
}

/// What a row offers as to deleting.
#[derive(Debug, Clone, Copy, PartialEq, Eq, Structural)]
pub enum Deleting {
    Hidden,
    StopFirst,
    Offered,
}

/// Whether deleting is offered: to those who may write, and not while the
/// experiment runs.
pub fn deleting(experiment: &Experiment, can_write: bool) -> (offer: Deleting)
    ensures
        offer == (if !can_write {
            Deleting::Hidden
        } else if experiment.state@ == "running"@ {
            Deleting::StopFirst
        } else {
            Deleting::Offered
        }),
{
    if !can_write {
        Deleting::Hidden
    } else if same_text(experiment.state.as_str(), "running") {
        Deleting::StopFirst
    } else {
        Deleting::Offered
    }
}

/// The badge of a state: how it is styled, what it says, and whether it has a
/// dot. State is never colour alone.
pub fn state_badge(state: &str) -> (badge: (&'static str, &'static str, bool))
    ensures
        state@ == "running"@ ==> badge.0@ == "badge badge--on"@ && badge.1@ == "Running"@
            && badge.2,
        state@ == "stopped"@ && state@ != "running"@ ==> badge.0@ == "badge badge--off"@
            && badge.1@ == "Stopped"@ && !badge.2,
        state@ != "running"@ && state@ != "stopped"@ ==> badge.0@ == "badge"@ && badge.1@
            == "Draft"@ && !badge.2,
{
    if same_text(state, "running") {
        ("badge badge--on", "Running", true)
    } else if same_text(state, "stopped") {
        ("badge badge--off", "Stopped", false)
    } else {
        ("badge", "Draft", false)
    }
}

// ------------------------------------------------------------------------ results

/// Whether nothing was counted for any arm.
pub fn no_data(results: &Vec<VariantResult>) -> (yes: bool)
    ensures
        yes == (forall|i: int|
            0 <= i < results@.len() ==> (#[trigger] results@[i]).exposures == 0
                && results@[i].conversions == 0),
{
    for i in 0..results.len()
        invariant
            forall|j: int|
                0 <= j < i ==> (#[trigger] results@[j]).exposures == 0 && results@[j].conversions
                    == 0,
    {
        if results[i].exposures != 0 || results[i].conversions != 0 {
            assert(!(results@[i as int].exposures == 0 && results@[i as int].conversions == 0));
            return false;
        }
    }
    true
}

/// Whether an arm has more conversions than exposures.
pub open spec fn exceeds(arm: VariantResult) -> bool {
    arm.exposures > 0 && arm.conversions > arm.exposures
}

/// Whether some arm has more conversions than exposures, which means that the
/// metric is tracked where the flag is not evaluated.
pub fn has_excess(results: &Vec<VariantResult>) -> (yes: bool)
    ensures
        yes == (exists|i: int| 0 <= i < results@.len() && exceeds(#[trigger] results@[i])),
        yes <==> exists|i: int|
            0 <= i < results@.len() && (#[trigger] results@[i]).exposures > 0
                && results@[i].conversions > results@[i].exposures,
{
    for i in 0..results.len()
        invariant
            forall|j: int| 0 <= j < i ==> !exceeds(#[trigger] results@[j]),
    {
        if results[i].exposures > 0 && results[i].conversions > results[i].exposures {
            assert(exceeds(results@[i as int]));
            return true;
        }
    }
    false
}

/// The colour of an arm: by its place in the flag's definition, as on the flag's
/// own page.
pub fn arm_color(variants: &Vec<Variant>, variant: &str) -> (color: usize)
    ensures
        color == color_of(variants@, variant@),
{
    match position_of(variants, variant) {
        Some(at) => at % 4,
        None => 0,
    }
}

/// What a meter is called, from the texts of the rate and of its interval.
pub open spec fn meter_words(
    variant: Seq<char>,
    rate: Option<Seq<char>>,
    interval: Option<Seq<char>>,
) -> Seq<char> {
    match (rate, interval) {
        (Some(rate), Some(interval)) => variant + ": "@ + rate + ", "@ + interval,
        _ => variant + ": no exposures yet"@,
    }
}

/// What a meter is called.
pub fn meter_label(variant: &str, rate: &Option<String>, interval: &Option<String>) -> (text: String)
    ensures
        text@ == meter_words(variant@, maybe(*rate), maybe(*interval)),
        rate is Some && interval is Some ==> text@ == variant@ + ": "@ + rate->0@ + ", "@
            + interval->0@,
        rate is None || interval is None ==> text@ == variant@ + ": no exposures yet"@,
{
    let mut text: String = variant.to_owned();
    match (rate, interval) {
        (Some(rate), Some(interval)) => {
            text.append(": ");
            text.append(rate.as_str());
            text.append(", ");
            text.append(interval.as_str());
        },
        _ => {
            text.append(": no exposures yet");
        },
    }
    text
}

/// What stands under a meter.
pub fn meter_caption(rate: &Option<String>, interval: &Option<String>) -> (text: String)
    ensures
        text@ == (match (maybe(*rate), maybe(*interval)) {
            (Some(rate), Some(interval)) => rate + " \u{b7} "@ + interval,
            _ => "No exposures yet"@,
        }),
{
    match (rate, interval) {
        (Some(rate), Some(interval)) => {
            let mut text: String = rate.clone();
            text.append(" \u{b7} ");
            text.append(interval.as_str());
            text
        },
        _ => "No exposures yet".to_owned(),
    }
}

/// The day on which an experiment was started or stopped, as its timestamp begins.
pub fn shown_day(at: &str) -> (day: String)
    ensures
        day@ == beginning(at@, 10),
{
    start_of(at, 10)
}

/// How an arm compares with the control, in words.
#[derive(Debug, Clone, Copy, PartialEq, Eq, Structural)]
pub enum Verdict {
    Baseline,
    Significant,
    NotSignificant,
    AwaitingData,
}

/// How an arm compares with the control.
pub fn verdict(arm: &VariantResult, control: &str) -> (verdict: Verdict)
    ensures
        verdict == (if arm.variant@ == control@ {
            Verdict::Baseline
        } else {
            match arm.vs_control {
                Some(comparison) => if comparison.significant {
                    Verdict::Significant
                } else {
                    Verdict::NotSignificant
                },
                None => Verdict::AwaitingData,
            }
        }),
{
    if same_text(arm.variant.as_str(), control) {
        return Verdict::Baseline;
    }
    match &arm.vs_control {
        Some(comparison) => if comparison.significant {
            Verdict::Significant
        } else {
            Verdict::NotSignificant
        },
        None => Verdict::AwaitingData,
    }
}

impl Verdict {
    /// The verdict in words.
    pub fn words(self) -> (text: &'static str)
        ensures
            text@ == (match self {
                Verdict::Baseline => "\u{2014} baseline"@,
                Verdict::Significant => "Significant"@,
                Verdict::NotSignificant => "Not significant"@,
                Verdict::AwaitingData => "Awaiting data"@,
            }),
    {
        match self {
            Verdict::Baseline => "\u{2014} baseline",
            Verdict::Significant => "Significant",
            Verdict::NotSignificant => "Not significant",
            Verdict::AwaitingData => "Awaiting data",
        }
    }
}

// ----------------------------------------------------------------------- creation

/// The form of a new experiment.
#[derive(Debug)]
pub struct CreateExperiment {
    pub form: KeyForm,
    pub flags: Load<Vec<ConfiguredFlag>>,
    pub flag_key: String,
    pub metric_key: String,
    pub control: String,
}

/// The position of the first flag that is not archived.
pub open spec fn first_live(flags: Seq<ConfiguredFlag>) -> Option<int>
    decreases flags.len(),
{
    if flags.len() == 0 {
        None
    } else {
        match first_live(flags.drop_last()) {
            Some(at) => Some(at),
            None => if !flags.last().flag.archived {
                Some(flags.len() - 1)
            } else {
                None
            },
        }
    }
}

/// The keys of the flags that are not archived, in order.
pub open spec fn live_keys(flags: Seq<ConfiguredFlag>) -> Seq<Seq<char>>
    decreases flags.len(),
{
    if flags.len() == 0 {
        Seq::empty()
    } else if flags.last().flag.archived {
        live_keys(flags.drop_last())
    } else {
        live_keys(flags.drop_last()).push(flags.last().flag.key@)
    }
}

proof fn first_live_stays(flags: Seq<ConfiguredFlag>, to: int)
    requires
        0 <= to <= flags.len(),
        first_live(flags.take(to)) is Some,
    ensures
        first_live(flags) == first_live(flags.take(to)),
    decreases flags.len() - to,
{
    if to < flags.len() {
        assert(flags.take(to + 1).drop_last() =~= flags.take(to));
        first_live_stays(flags, to + 1);
    } else {
        assert(flags.take(to) =~= flags);
    }
}

fn find_live(flags: &Vec<ConfiguredFlag>) -> (at: Option<usize>)
    ensures
        match at {
            Some(i) => i < flags.len() && first_live(flags@) == Some(i as int),
            None => first_live(flags@) is None,
        },
{
    for i in 0..flags.len()
        invariant
            first_live(flags@.take(i as int)) is None,
    {
        assert(flags@.take(i + 1).drop_last() =~= flags@.take(i as int));
        if !flags[i].flag.archived {
            proof {
                first_live_stays(flags@, i + 1);
            }
            return Some(i);
        }
    }
    assert(flags@.take(flags.len() as int) =~= flags@);
    None
}

impl CreateExperiment {
    pub fn new() -> (page: CreateExperiment)
        ensures
            page.form.name@.len() == 0,
            page.form.key@.len() == 0,
            page.form.key_is_derived,
            !page.form.busy,
            page.flags is Loading,
            page.flag_key@.len() == 0,
            page.metric_key@.len() == 0,
            page.control@.len() == 0,
    {
        CreateExperiment {
            form: KeyForm::new(),
            flags: Load::Loading,
            flag_key: String::new(),
            metric_key: String::new(),
            control: String::new(),
        }
    }

    /// Asks for the flags to choose from.
    pub fn load_flags<'a>(&self, token: Option<&'a str>, project: &str, environment: &str) -> (call:
        Option<Call<'a>>)
        ensures
            match token {
                Some(token) => call matches Some(call) && call.is(
                    Method::Get,
                    environment_path(project@, environment@, "/flags"@),
                    Some(token@),
                ) && call.body == Body::Nothing,
                None => call is None,
            },
    {
        match token {
            Some(token) => Some(api::list_configured(token, project, environment)),
            None => None,
        }
    }

    /// What the server said of the flags. The first one that is not archived is
    /// chosen, and its off variant is the control: that is what traffic outside
    /// the experiment would see.
    pub fn flags_loaded(&mut self, answer: Result<Vec<ConfiguredFlag>, ApiError>)
        ensures
            final(self).form == old(self).form,
            final(self).metric_key == old(self).metric_key,
            final(self).flags == loaded(answer),
            match answer {
                Ok(list) => match first_live(list@) {
                    Some(at) => {
                        &&& final(self).flag_key == list@[at].flag.key
                        &&& final(self).control == list@[at].config.off_variant
                    },
                    None => final(self).flag_key == old(self).flag_key && final(self).control
                        == old(self).control,
                },
                Err(_) => final(self).flag_key == old(self).flag_key && final(self).control == old(
                    self,
                ).control,
            },
    {
        if let Ok(list) = &answer {
            if let Some(at) = find_live(list) {
                self.flag_key = list[at].flag.key.clone();
                self.control = list[at].config.off_variant.clone();
            }
        }
        self.flags = Load::from(answer);
    }

    /// The keys of the flags to choose from, once they are there: those that are
    /// not archived, in order.
    pub fn choices(&self) -> (keys: Option<Vec<String>>)
        ensures
            match self.flags {
                Load::Ready(list) => keys matches Some(keys) && texts(keys@) == live_keys(list@),
                _ => keys is None,
            },
    {
        let list = match &self.flags {
            Load::Ready(list) => list,
            _ => {
                return None;
            },
        };
        let mut keys: Vec<String> = Vec::new();
        assert(texts(keys@) =~= live_keys(list@.take(0)));
        for i in 0..list.len()
            invariant
                texts(keys@) == live_keys(list@.take(i as int)),
        {
            let ghost earlier = keys@;
            assert(list@.take(i + 1).drop_last() =~= list@.take(i as int));
            if !list[i].flag.archived {
                keys.push(list[i].flag.key.clone());
                assert(texts(keys@) =~= texts(earlier).push(list@[i as int].flag.key@));
            }
        }
        assert(list@.take(list.len() as int) =~= list@);
        Some(keys)
    }

    /// Chooses a flag. Its off variant becomes the control, where the flag is one
    /// of those that were loaded.
    pub fn choose_flag(&mut self, key: String)
        ensures
            final(self).form == old(self).form,
            final(self).metric_key == old(self).metric_key,
            final(self).flags == old(self).flags,
            final(self).flag_key == key,
            final(self).control@ == (match old(self).flags {
                Load::Ready(list) => match row_of(list@, key@) {
                    Some(at) => list@[at].config.off_variant@,
                    None => old(self).control@,
                },
                _ => old(self).control@,
            }),
    {
        let found: Option<String> = match &self.flags {
            Load::Ready(list) => match find_row(list, key.as_str()) {
                Some(at) => Some(list[at].config.off_variant.clone()),
                None => None,
            },
            _ => None,
        };
        if let Some(control) = found {
            self.control = control;
        }
        self.flag_key = key;
    }

    /// The variants the control is chosen from.
    pub fn variants_of_selected(&self) -> (variants: Vec<Variant>)
        ensures
            variants@ == (match self.flags {
                Load::Ready(list) => match row_of(list@, self.flag_key@) {
                    Some(at) => list@[at].flag.variants@,
                    None => Seq::empty(),
                },
                _ => Seq::empty(),
            }),
    {
        match &self.flags {
            Load::Ready(list) => match find_row(list, self.flag_key.as_str()) {
                Some(at) => copy_variants(&list[at].flag.variants),
                None => Vec::new(),
            },
            _ => Vec::new(),
        }
    }

    /// Sends the form, unless it is being sent already.
    pub fn submit<'a>(&'a mut self, token: Option<&'a str>, project: &str, environment: &str) -> (
    call: Option<Call<'a>>)
        ensures
            *final(self) == (CreateExperiment {
                form: KeyForm { busy: true, ..old(self).form },
                ..*old(self)
            }),
            match (old(self).form.busy, token) {
                (false, Some(token)) => {
                    &&& call matches Some(call)
                    &&& call.is(
                        Method::Post,
                        environment_path(project@, environment@, "/experiments"@),
                        Some(token@),
                    )
                    &&& call.body matches Body::Experiment(body)
                    &&& body.key@ == old(self).form.key@
                    &&& body.name@ == old(self).form.name@
                    &&& body.description is None
                    &&& body.flag_key@ == old(self).flag_key@
                    &&& body.metric_key@ == old(self).metric_key@
                    &&& body.control_variant@ == old(self).control@
                },
                _ => call is None,
            },
    {
        if !self.form.begin() {
            return None;
        }
        match token {
            Some(token) => Some(
                api::create_experiment(
                    token,
                    project,
                    environment,
                    NewExperiment {
                        key: self.form.key.as_str(),
                        name: self.form.name.as_str(),
                        description: None,
                        flag_key: self.flag_key.as_str(),
                        metric_key: self.metric_key.as_str(),
                        control_variant: self.control.as_str(),
                    },
                ),
            ),
            None => None,
        }
    }

    /// What the server said: the key of the new experiment, or what went wrong.
    pub fn submitted(&mut self, answer: Result<Experiment, ApiError>) -> (outcome: Result<
        String,
        Notice,
    >)
        ensures
            *final(self) == (CreateExperiment {
                form: KeyForm { busy: false, ..old(self).form },
                ..*old(self)
            }),
            match answer {
                Ok(experiment) => outcome == Ok::<String, Notice>(experiment.key),
                Err(error) => outcome matches Err(notice) && notice.fails(
                    "Could not create the experiment"@,
                    error,
                ),
            },
    {
        self.form.finish();
        match answer {
            Ok(experiment) => Ok(experiment.key),
            Err(error) => Err(Notice::error("Could not create the experiment", &error)),
        }
    }
}

// ------------------------------------------------------------------ the meaning

/// The results of an experiment are asked for behind the experiment itself.
pub proof fn results_are_asked_for_by_key(
    call: Call<'_>,
    token: Seq<char>,
    project: Seq<char>,
    environment: Seq<char>,
    key: Seq<char>,
)
    requires
        asks_for_results(call, token, project, environment, key),
    ensures
        call.method == Method::Get,
        call.path@ == "/projects/"@ + project + "/environments/"@ + environment
            + "/experiments"@ + "/"@ + key + "/results"@,
        call.token is Some && call.token->0@ == token,
        call.body == Body::Nothing,
{
}

/// A move is offered to those who may write: starting to a draft, stopping to what
/// runs, and nothing to anything else.
pub proof fn moves_are_offered_by_state(state: Seq<char>, can_write: bool)
    ensures
        offered(state, can_write) == Some(Action::Start) <==> can_write && state == "draft"@,
        offered(state, can_write) == Some(Action::Stop) <==> can_write && state == "running"@,
{
    reveal_strlit("draft");
    reveal_strlit("running");
    assert("draft"@[0] == 'd' && "running"@[0] == 'r');
}

/// The flag that is chosen first is the first that is not archived.
pub proof fn the_first_live_flag_is_chosen(flags: Seq<ConfiguredFlag>)
    ensures
        match first_live(flags) {
            Some(at) => {
                &&& 0 <= at < flags.len()
                &&& !flags[at].flag.archived
                &&& forall|i: int| 0 <= i < at ==> (#[trigger] flags[i]).flag.archived
            },
            None => forall|i: int| 0 <= i < flags.len() ==> (#[trigger] flags[i]).flag.archived,
        },
    decreases flags.len(),
{
    if flags.len() > 0 {
        let shorter = flags.drop_last();
        the_first_live_flag_is_chosen(shorter);
        assert(forall|i: int| 0 <= i < shorter.len() ==> shorter[i] == flags[i]);
    }
}

/// The flags to choose from are those that are not archived, in order.
pub proof fn archived_flags_are_no_choice(flags: Seq<ConfiguredFlag>)
    ensures
        live_keys(flags) == flags.filter(|row: ConfiguredFlag| !row.flag.archived).map_values(
            |row: ConfiguredFlag| row.flag.key@,
        ),
    decreases flags.len(),
{
    reveal(Seq::filter);
    let live = |row: ConfiguredFlag| !row.flag.archived;
    let key = |row: ConfiguredFlag| row.flag.key@;
    if flags.len() > 0 {
        let shorter = flags.drop_last();
        archived_flags_are_no_choice(shorter);
        if live(flags.last()) {
            assert(flags.filter(live) == shorter.filter(live).push(flags.last()));
            assert(flags.filter(live).map_values(key) =~= shorter.filter(live).map_values(key).push(
                key(flags.last()),
            ));
        }
    } else {
        assert(live_keys(flags) =~= flags.filter(live).map_values(key));
    }
}

/// An arm has an excess where it counts more conversions than exposures, if it has
/// any exposures.
pub proof fn an_excess_is_more_conversions_than_exposures(arm: VariantResult)
    ensures
        exceeds(arm) <==> arm.exposures > 0 && arm.conversions > arm.exposures,
{
}

} // verus!
