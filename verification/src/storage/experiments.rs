//! Experiments and their pre-aggregated counters.

use vstd::prelude::*;

use crate::domain::{Variant, VariantCounts};
use crate::ids::Uuid;
use crate::storage::error::{
    affected, decoded, decoded_or_malformed, reports_write, written, FoundExt, StorageError,
};
use crate::storage::models::{
    state_named, states_are_read_by_name, CounterDelta, CounterKind, Experiment, ExperimentState,
};
use crate::storage::rows::{gather, gathers};
use crate::text::{same_text, texts};
use crate::time::{hour_of, hour_start, Timestamp};

verus! {

/// A row of the experiments table, with the key and the variants of the flag it
/// measures. The variants may not decode, and the state may be unknown.
#[derive(Debug)]
pub struct ExperimentRow {
    pub id: Uuid,
    pub environment_id: Uuid,
    pub flag_id: Uuid,
    pub flag_key: String,
    pub variants: Result<Vec<Variant>, serde_json::Error>,
    pub key: String,
    pub name: String,
    pub description: Option<String>,
    pub metric_key: String,
    pub control_variant: String,
    pub state: String,
    pub started_at: Option<Timestamp>,
    pub stopped_at: Option<Timestamp>,
    pub version: i64,
    pub created_at: Timestamp,
    pub updated_at: Timestamp,
}

/// The experiment in a row, or why there is none.
pub open spec fn experiment_of(row: ExperimentRow) -> Result<Experiment, StorageError> {
    match decoded_or_malformed(row.variants, "experiment flag variants") {
        Ok(variants) => match state_named(row.state@) {
            Some(state) => Ok(
                Experiment {
                    id: row.id,
                    environment_id: row.environment_id,
                    flag_id: row.flag_id,
                    flag_key: row.flag_key,
                    variants,
                    key: row.key,
                    name: row.name,
                    description: row.description,
                    metric_key: row.metric_key,
                    control_variant: row.control_variant,
                    state,
                    started_at: row.started_at,
                    stopped_at: row.stopped_at,
                    version: row.version,
                    created_at: row.created_at,
                    updated_at: row.updated_at,
                },
            ),
            None => Err(StorageError::Invalid { entity: "experiment state" }),
        },
        Err(error) => Err(error),
    }
}

/// The experiment in a row, or why there is none.
pub fn build(row: ExperimentRow) -> (experiment: Result<Experiment, StorageError>)
    ensures
        experiment == experiment_of(row),
{
    let variants = match decoded(row.variants, "experiment flag variants") {
        Ok(variants) => variants,
        Err(error) => {
            return Err(error);
        },
    };
    match ExperimentState::parse(row.state.as_str()) {
        Some(state) => Ok(
            Experiment {
                id: row.id,
                environment_id: row.environment_id,
                flag_id: row.flag_id,
                flag_key: row.flag_key,
                variants,
                key: row.key,
                name: row.name,
                description: row.description,
                metric_key: row.metric_key,
                control_variant: row.control_variant,
                state,
                started_at: row.started_at,
                stopped_at: row.stopped_at,
                version: row.version,
                created_at: row.created_at,
                updated_at: row.updated_at,
            },
        ),
        None => Err(StorageError::Invalid { entity: "experiment state" }),
    }
}

/// An experiment carries what its row holds, field by field, in the state the row
/// names. A row whose variants do not decode, or that names no state, is none.
pub proof fn an_experiment_carries_its_row(row: ExperimentRow)
    ensures
        match row.variants {
            Ok(variants) => if row.state@ == "draft"@ || row.state@ == "running"@ || row.state@
                == "stopped"@ {
                &&& experiment_of(row) matches Ok(experiment)
                &&& experiment.id == row.id
                &&& experiment.environment_id == row.environment_id
                &&& experiment.flag_id == row.flag_id
                &&& experiment.flag_key@ == row.flag_key@
                &&& experiment.variants@ == variants@
                &&& experiment.key@ == row.key@
                &&& experiment.name@ == row.name@
                &&& experiment.description == row.description
                &&& experiment.metric_key@ == row.metric_key@
                &&& experiment.control_variant@ == row.control_variant@
                &&& experiment.state == ExperimentState::Draft <==> row.state@ == "draft"@
                &&& experiment.state == ExperimentState::Running <==> row.state@ == "running"@
                &&& experiment.started_at == row.started_at
                &&& experiment.stopped_at == row.stopped_at
                &&& experiment.version == row.version
                &&& experiment.created_at == row.created_at
                &&& experiment.updated_at == row.updated_at
            } else {
                experiment_of(row) == Err::<Experiment, StorageError>(
                    StorageError::Invalid { entity: "experiment state" },
                )
            },
            Err(error) => experiment_of(row) == Err::<Experiment, StorageError>(
                StorageError::Malformed { entity: "experiment flag variants", source: error },
            ),
        },
        experiment_found(Some(row)) == experiment_of(row),
        experiment_found(None) == Err::<Experiment, StorageError>(
            StorageError::NotFound { entity: "experiment" },
        ),
{
    states_are_read_by_name(row.state@);
}

/// What a lookup of an experiment comes to.
pub open spec fn experiment_found(row: Option<ExperimentRow>) -> Result<Experiment, StorageError> {
    match row {
        Some(row) => experiment_of(row),
        None => Err(StorageError::NotFound { entity: "experiment" }),
    }
}

/// The experiment an environment has under a key.
pub fn find_experiment(row: Option<ExperimentRow>) -> (found: Result<Experiment, StorageError>)
    ensures
        found == experiment_found(row),
{
    match row.or_not_found("experiment") {
        Ok(row) => build(row),
        Err(error) => Err(error),
    }
}

/// A new experiment, or what the refusal to insert it means. `row` is what was
/// read back after the insert.
pub fn create_experiment(
    inserted: Result<(), sqlx::Error>,
    key: &str,
    row: Option<ExperimentRow>,
) -> (created: Result<Experiment, StorageError>)
    ensures
        match inserted {
            Ok(_) => created == experiment_found(row),
            Err(error) => created matches Err(reported) && reports_write(
                reported,
                error,
                "experiment",
                key@,
            ),
        },
{
    match written(inserted, "experiment", key) {
        Ok(_) => find_experiment(row),
        Err(error) => Err(error),
    }
}

/// The experiments of an environment, in the order of the rows. One that does
/// not decode fails the whole list.
pub fn list_experiments(rows: Vec<ExperimentRow>) -> (experiments: Result<
    Vec<Experiment>,
    StorageError,
>)
    ensures
        gathers(experiments, rows@.map_values(|row: ExperimentRow| experiment_of(row))),
{
    let ghost all = rows@;
    let mut built: Vec<Result<Experiment, StorageError>> = Vec::new();
    for row in it: rows
        invariant
            it.seq() == all,
            built@ == all.take(it.index()).map_values(|row: ExperimentRow| experiment_of(row)),
    {
        built.push(build(row));
    }
    assert(all.take(all.len() as int) =~= all);
    gather(built)
}

/// An experiment whose presentation was rewritten. `row` is what was read back
/// after the update.
///
/// What an experiment measures is not up for change: that would splice two
/// questions into one answer.
pub fn update_experiment(
    updated: Result<u64, sqlx::Error>,
    key: &str,
    row: Option<ExperimentRow>,
) -> (experiment: Result<Experiment, StorageError>)
    ensures
        match updated {
            Ok(rows_affected) => experiment == (if rows_affected == 0 {
                Err(StorageError::NotFound { entity: "experiment" })
            } else {
                experiment_found(row)
            }),
            Err(error) => experiment matches Err(reported) && reports_write(
                reported,
                error,
                "experiment",
                key@,
            ),
        },
{
    let rows_affected: u64 = match written(updated, "experiment", key) {
        Ok(rows_affected) => rows_affected,
        Err(error) => {
            return Err(error);
        },
    };
    match affected(rows_affected, "experiment") {
        Ok(_) => find_experiment(row),
        Err(error) => Err(error),
    }
}

// ------------------------------------------------------------------ lifecycle

/// One step of an experiment's life.
#[derive(Debug, Clone, Copy, PartialEq, Eq, Structural)]
pub enum Transition {
    /// From draft to running.
    Start,
    /// From running to stopped, the terminal state.
    Stop,
}

impl Transition {
    /// The state a step applies in, and the state it leads to.
    pub open spec fn ends(self) -> (ExperimentState, ExperimentState) {
        match self {
            Transition::Start => (ExperimentState::Draft, ExperimentState::Running),
            Transition::Stop => (ExperimentState::Running, ExperimentState::Stopped),
        }
    }

    /// The state a step applies in.
    pub fn from(self) -> (state: ExperimentState)
        ensures
            state == self.ends().0,
            self == Transition::Start ==> state == ExperimentState::Draft,
            self == Transition::Stop ==> state == ExperimentState::Running,
    {
        match self {
            Transition::Start => ExperimentState::Draft,
            Transition::Stop => ExperimentState::Running,
        }
    }

    /// The state a step leads to.
    pub fn to(self) -> (state: ExperimentState)
        ensures
            state == self.ends().1,
            self == Transition::Start ==> state == ExperimentState::Running,
            self == Transition::Stop ==> state == ExperimentState::Stopped,
    {
        match self {
            Transition::Start => ExperimentState::Running,
            Transition::Stop => ExperimentState::Stopped,
        }
    }
}

/// How far along its life a state is.
pub open spec fn stage(state: ExperimentState) -> int {
    match state {
        ExperimentState::Draft => 0,
        ExperimentState::Running => 1,
        ExperimentState::Stopped => 2,
    }
}

/// The states of an experiment after a number of steps.
pub open spec fn lives(states: Seq<ExperimentState>) -> bool {
    &&& states.len() > 0
    &&& states[0] == ExperimentState::Draft
    &&& forall|i: int|
        #![trigger states[i]]
        0 < i < states.len() ==> {
            let step = (states[i - 1], states[i]);
            step == Transition::Start.ends() || step == Transition::Stop.ends()
        }
}

/// Life goes one way: no state is ever entered twice, and nothing follows
/// stopped.
pub proof fn life_is_one_way(states: Seq<ExperimentState>)
    requires
        lives(states),
    ensures
        states.no_duplicates(),
        forall|i: int|
            0 <= i < states.len() && states[i] == ExperimentState::Stopped ==> i == states.len()
                - 1,
{
    assert forall|i: int| 0 <= i < states.len() implies stage(#[trigger] states[i]) == i by {
        stage_counts_steps(states, i);
    }
    assert forall|i: int|
        0 <= i < states.len() && states[i] == ExperimentState::Stopped implies i == states.len()
        - 1 by {
        if i + 1 < states.len() {
            assert(stage(states[i + 1]) == i + 1);
        }
    }
}

proof fn stage_counts_steps(states: Seq<ExperimentState>, at: int)
    requires
        lives(states),
        0 <= at < states.len(),
    ensures
        stage(states[at]) == at,
    decreases at,
{
    if at > 0 {
        stage_counts_steps(states, at - 1);
    }
}

/// Whether an error says that the experiment was in the wrong state.
pub open spec fn reports_state(
    error: StorageError,
    key: Seq<char>,
    actual: ExperimentState,
    needed: Seq<char>,
) -> bool {
    error matches StorageError::WrongState { entity, key: named, actual: was, needed: has_to_be }
        && entity == "experiment" && named@ == key && was@ == actual.name() && has_to_be@ == needed
}

/// What an attempt to move an experiment came to. The update only touches the
/// row while it is in the state the step starts from, so of two racing attempts
/// one touches nothing. `row` is what was read back afterwards.
pub open spec fn moves(
    outcome: Result<Experiment, StorageError>,
    step: Transition,
    rows_affected: u64,
    key: Seq<char>,
    row: Option<ExperimentRow>,
) -> bool {
    match experiment_found(row) {
        Err(error) => outcome == Err::<Experiment, StorageError>(error),
        Ok(current) => if rows_affected == 0 {
            outcome matches Err(error) && reports_state(
                error,
                key,
                current.state,
                step.ends().0.name(),
            )
        } else {
            outcome == Ok::<Experiment, StorageError>(current)
        },
    }
}

fn transition(step: Transition, rows_affected: u64, key: &str, row: Option<ExperimentRow>) -> (
outcome: Result<Experiment, StorageError>)
    ensures
        moves(outcome, step, rows_affected, key@, row),
{
    let current = match find_experiment(row) {
        Ok(current) => current,
        Err(error) => {
            return Err(error);
        },
    };
    if rows_affected == 0 {
        return Err(
            StorageError::WrongState {
                entity: "experiment",
                key: key.to_owned(),
                actual: current.state.as_str(),
                needed: step.from().as_str(),
            },
        );
    }
    Ok(current)
}

/// A draft that was to start running.
pub fn start_experiment(rows_affected: u64, key: &str, row: Option<ExperimentRow>) -> (outcome:
    Result<Experiment, StorageError>)
    ensures
        moves(outcome, Transition::Start, rows_affected, key@, row),
{
    transition(Transition::Start, rows_affected, key, row)
}

/// A running experiment that was to stop.
pub fn stop_experiment(rows_affected: u64, key: &str, row: Option<ExperimentRow>) -> (outcome:
    Result<Experiment, StorageError>)
    ensures
        moves(outcome, Transition::Stop, rows_affected, key@, row),
{
    transition(Transition::Stop, rows_affected, key, row)
}

/// Whether an attempt to move an experiment takes its row from one content to the
/// next. The update touches the row only while it is in the state the step
/// starts from, and then sets the state it leads to and the time it was reached.
pub open spec fn steps_row(
    before: Option<ExperimentRow>,
    after: Option<ExperimentRow>,
    rows_affected: u64,
    step: Transition,
    now: Timestamp,
) -> bool {
    match before {
        Some(row) if row.state@ == step.ends().0.name() => {
            &&& rows_affected == 1
            &&& after is Some
            &&& after->0.state@ == step.ends().1.name()
            &&& after->0 == ExperimentRow {
                state: after->0.state,
                started_at: match step {
                    Transition::Start => Some(now),
                    Transition::Stop => row.started_at,
                },
                stopped_at: match step {
                    Transition::Start => row.stopped_at,
                    Transition::Stop => Some(now),
                },
                version: after->0.version,
                updated_at: after->0.updated_at,
                ..row
            }
        },
        _ => rows_affected == 0 && after == before,
    }
}

/// A step succeeds exactly where the experiment is in the state it starts from.
/// Anywhere else the row stays as it was and the error names the state.
proof fn a_step_needs_its_state(
    before: ExperimentRow,
    after: Option<ExperimentRow>,
    rows_affected: u64,
    step: Transition,
    now: Timestamp,
    key: Seq<char>,
    outcome: Result<Experiment, StorageError>,
)
    requires
        experiment_of(before) is Ok,
        steps_row(Some(before), after, rows_affected, step, now),
        moves(outcome, step, rows_affected, key, after),
    ensures
        match outcome {
            Ok(experiment) => {
                &&& experiment_of(before)->Ok_0.state == step.ends().0
                &&& experiment.state == step.ends().1
                &&& Ok::<Experiment, StorageError>(experiment) == experiment_found(after)
                &&& experiment.started_at == after->0.started_at
                &&& experiment.stopped_at == after->0.stopped_at
            },
            Err(error) => {
                &&& experiment_of(before)->Ok_0.state != step.ends().0
                &&& after == Some(before)
                &&& reports_state(
                    error,
                    key,
                    experiment_of(before)->Ok_0.state,
                    step.ends().0.name(),
                )
            },
        },
{
    reveal_strlit("draft");
    reveal_strlit("running");
    reveal_strlit("stopped");
    assert("draft"@.len() == 5 && "running"@.len() == 7 && "stopped"@.len() == 7);
    assert("running"@[0] != "stopped"@[0]);
}

/// What an attempt to move an experiment comes to, on the row that was read back:
/// where nothing was touched, the error names the experiment, the state it is in
/// and the state the step needs; where something was, the experiment in the row.
pub proof fn an_attempt_reports_what_it_read(
    outcome: Result<Experiment, StorageError>,
    step: Transition,
    rows_affected: u64,
    key: Seq<char>,
    row: Option<ExperimentRow>,
)
    requires
        moves(outcome, step, rows_affected, key, row),
    ensures
        match row {
            None => outcome == Err::<Experiment, StorageError>(
                StorageError::NotFound { entity: "experiment" },
            ),
            Some(read) => if experiment_of(read) is Err || rows_affected > 0 {
                outcome == experiment_of(read)
            } else {
                &&& outcome matches Err(StorageError::WrongState {
                    entity,
                    key: named,
                    actual,
                    needed,
                })
                &&& entity == "experiment"
                &&& named@ == key
                &&& actual@ == read.state@
                &&& needed@ == (match step {
                    Transition::Start => "draft"@,
                    Transition::Stop => "running"@,
                })
            },
        },
{
    if row is Some {
        states_are_read_by_name(row->0.state@);
    }
}

/// An error reports a wrong state exactly where it names the experiment, the state
/// it is in, and the one it has to be in.
pub proof fn a_wrong_state_is_named(
    error: StorageError,
    key: Seq<char>,
    actual: ExperimentState,
    needed: Seq<char>,
)
    ensures
        reports_state(error, key, actual, needed) <==> (error matches StorageError::WrongState {
            entity,
            key: named,
            actual: was,
            needed: has_to_be,
        } && entity == "experiment" && named@ == key && was@ == (match actual {
            ExperimentState::Draft => "draft"@,
            ExperimentState::Running => "running"@,
            ExperimentState::Stopped => "stopped"@,
        }) && has_to_be@ == needed),
{
}

/// Only a draft starts, and it runs from then on, with the time it started at.
/// Whatever is not a draft stays as it was, and the error names its state; where
/// there is no experiment, the error says so.
pub proof fn only_a_draft_starts(
    before: Option<ExperimentRow>,
    after: Option<ExperimentRow>,
    rows_affected: u64,
    now: Timestamp,
    key: Seq<char>,
    outcome: Result<Experiment, StorageError>,
)
    requires
        before matches Some(row) ==> experiment_of(row) is Ok,
        steps_row(before, after, rows_affected, Transition::Start, now),
        moves(outcome, Transition::Start, rows_affected, key, after),
    ensures
        outcome is Ok <==> before is Some && experiment_of(before->0)->Ok_0.state
            == ExperimentState::Draft,
        match outcome {
            Ok(experiment) => {
                &&& experiment.state == ExperimentState::Running
                &&& experiment.started_at == Some(now)
                &&& experiment.stopped_at == before->0.stopped_at
            },
            Err(error) => {
                &&& after == before
                &&& match before {
                    Some(row) => reports_state(
                        error,
                        key,
                        experiment_of(row)->Ok_0.state,
                        "draft"@,
                    ),
                    None => error == StorageError::NotFound { entity: "experiment" },
                }
            },
        },
{
    if let Some(row) = before {
        a_step_needs_its_state(row, after, rows_affected, Transition::Start, now, key, outcome);
    }
}

/// Only what runs stops, and keeps the time it started at. Whatever does not run
/// stays as it was, and the error names its state; where there is no experiment,
/// the error says so.
pub proof fn only_what_runs_stops(
    before: Option<ExperimentRow>,
    after: Option<ExperimentRow>,
    rows_affected: u64,
    now: Timestamp,
    key: Seq<char>,
    outcome: Result<Experiment, StorageError>,
)
    requires
        before matches Some(row) ==> experiment_of(row) is Ok,
        steps_row(before, after, rows_affected, Transition::Stop, now),
        moves(outcome, Transition::Stop, rows_affected, key, after),
    ensures
        outcome is Ok <==> before is Some && experiment_of(before->0)->Ok_0.state
            == ExperimentState::Running,
        match outcome {
            Ok(experiment) => {
                &&& experiment.state == ExperimentState::Stopped
                &&& experiment.started_at == before->0.started_at
                &&& experiment.stopped_at == Some(now)
            },
            Err(error) => {
                &&& after == before
                &&& match before {
                    Some(row) => reports_state(
                        error,
                        key,
                        experiment_of(row)->Ok_0.state,
                        "running"@,
                    ),
                    None => error == StorageError::NotFound { entity: "experiment" },
                }
            },
        },
{
    if let Some(row) = before {
        a_step_needs_its_state(row, after, rows_affected, Transition::Stop, now, key, outcome);
    }
}

/// A stopped experiment stays stopped: no step touches it, and each is refused.
pub proof fn stopped_is_terminal(
    before: ExperimentRow,
    after: Option<ExperimentRow>,
    rows_affected: u64,
    step: Transition,
    now: Timestamp,
    key: Seq<char>,
    outcome: Result<Experiment, StorageError>,
)
    requires
        experiment_of(before) is Ok,
        experiment_of(before)->Ok_0.state == ExperimentState::Stopped,
        steps_row(Some(before), after, rows_affected, step, now),
        moves(outcome, step, rows_affected, key, after),
    ensures
        after == Some(before),
        outcome matches Err(error) && reports_state(
            error,
            key,
            ExperimentState::Stopped,
            step.ends().0.name(),
        ),
{
    a_step_needs_its_state(before, after, rows_affected, step, now, key, outcome);
}

/// Of two racing attempts at the same step at most one succeeds, whatever each of
/// them reads back afterwards.
pub proof fn at_most_one_attempt_succeeds(
    before: Option<ExperimentRow>,
    between: Option<ExperimentRow>,
    after: Option<ExperimentRow>,
    step: Transition,
    key: Seq<char>,
    first: (u64, Timestamp, Option<ExperimentRow>, Result<Experiment, StorageError>),
    second: (u64, Timestamp, Option<ExperimentRow>, Result<Experiment, StorageError>),
)
    requires
        steps_row(before, between, first.0, step, first.1),
        steps_row(between, after, second.0, step, second.1),
        moves(first.3, step, first.0, key, first.2),
        moves(second.3, step, second.0, key, second.2),
    ensures
        first.0 == 0 || second.0 == 0,
        !(first.3 is Ok && second.3 is Ok),
{
    reveal_strlit("draft");
    reveal_strlit("running");
    reveal_strlit("stopped");
    assert("draft"@.len() == 5 && "running"@.len() == 7 && "stopped"@.len() == 7);
    assert("running"@[0] != "stopped"@[0]);
}

/// An experiment that was to be deleted, counters and all. `row` is what is
/// there where nothing was deleted.
///
/// A running one is refused: stopping is the acknowledgement that measurement is
/// over.
pub fn delete_experiment(rows_affected: u64, key: &str, row: Option<ExperimentRow>) -> (outcome:
    Result<(), StorageError>)
    ensures
        if rows_affected > 0 {
            outcome == Ok::<(), StorageError>(())
        } else {
            match experiment_found(row) {
                Err(error) => outcome == Err::<(), StorageError>(error),
                Ok(current) => outcome matches Err(error) && reports_state(
                    error,
                    key@,
                    current.state,
                    "stopped (or still a draft)"@,
                ),
            }
        },
{
    if rows_affected > 0 {
        return Ok(());
    }
    match find_experiment(row) {
        Ok(current) => Err(
            StorageError::WrongState {
                entity: "experiment",
                key: key.to_owned(),
                actual: current.state.as_str(),
                needed: "stopped (or still a draft)",
            },
        ),
        Err(error) => Err(error),
    }
}

/// The name of an experiment with its environment in front.
pub open spec fn qualified(row: (String, String)) -> Seq<char> {
    row.0@ + "/"@ + row.1@
}

/// The experiments that use a flag, each with its environment in front so that
/// whoever reads the list can find them.
pub fn experiments_referencing_flag(rows: &Vec<(String, String)>) -> (names: Vec<String>)
    ensures
        texts(names@) == rows@.map_values(|row: (String, String)| qualified(row)),
        names@.len() == rows@.len(),
        forall|i: int|
            0 <= i < rows@.len() ==> (#[trigger] names@[i])@ == rows@[i].0@ + "/"@ + rows@[i].1@,
{
    let mut names: Vec<String> = Vec::new();
    for i in 0..rows.len()
        invariant
            names.len() == i,
            forall|j: int| 0 <= j < i ==> (#[trigger] names@[j])@ == qualified(rows@[j]),
    {
        let mut name: String = rows[i].0.clone();
        name.append("/");
        name.append(rows[i].1.as_str());
        names.push(name);
    }
    assert(texts(names@) =~= rows@.map_values(|row: (String, String)| qualified(row)));
    names
}

// ------------------------------------------------------------------- counters

/// Which counter an increment lands in.
pub ghost struct Cell {
    pub experiment_key: Seq<char>,
    pub variant: Seq<char>,
    pub kind: CounterKind,
    pub hour: Timestamp,
}

/// A counter and what a batch adds to it.
#[derive(Debug)]
pub struct CounterCell {
    pub experiment_key: String,
    pub variant: String,
    pub kind: CounterKind,
    pub hour: Timestamp,
    pub count: i64,
}

impl CounterCell {
    /// The counter this is.
    pub open spec fn cell(self) -> Cell {
        Cell {
            experiment_key: self.experiment_key@,
            variant: self.variant@,
            kind: self.kind,
            hour: self.hour,
        }
    }
}

/// The counter an increment lands in; none where its time has no hour.
pub open spec fn cell_of(delta: CounterDelta) -> Option<Cell> {
    match hour_start(delta.at) {
        Some(hour) => Some(
            Cell {
                experiment_key: delta.experiment_key@,
                variant: delta.variant@,
                kind: delta.kind,
                hour,
            },
        ),
        None => None,
    }
}

/// What a batch adds to a counter in all.
pub open spec fn added(deltas: Seq<CounterDelta>, cell: Cell) -> int
    decreases deltas.len(),
{
    if deltas.len() == 0 {
        0
    } else {
        added(deltas.drop_last(), cell) + if cell_of(deltas.last()) == Some(cell) {
            deltas.last().count as int
        } else {
            0
        }
    }
}

/// Whether a list of counters has a given one.
#[verifier::opaque]
pub open spec fn counts_cell(cells: Seq<CounterCell>, cell: Cell) -> bool {
    exists|c: int| 0 <= c < cells.len() && (#[trigger] cells[c]).cell() == cell
}

/// Whether a batch has an increment of a counter.
#[verifier::opaque]
pub open spec fn increments(deltas: Seq<CounterDelta>, cell: Cell) -> bool {
    exists|i: int| 0 <= i < deltas.len() && cell_of(#[trigger] deltas[i]) == Some(cell)
}

/// Whether a list of counters is what a batch comes to: every increment has its
/// counter, no counter is there twice, none without an increment, and each adds
/// what its increments add up to.
pub open spec fn collapses(cells: Seq<CounterCell>, deltas: Seq<CounterDelta>) -> bool {
    &&& forall|i: int|
        0 <= i < deltas.len() ==> (cell_of(#[trigger] deltas[i]) matches Some(cell) && counts_cell(
            cells,
            cell,
        ))
    &&& forall|a: int, b: int|
        0 <= a < b < cells.len() ==> (#[trigger] cells[a]).cell() != (#[trigger] cells[b]).cell()
    &&& forall|c: int|
        0 <= c < cells.len() ==> {
            &&& (#[trigger] cells[c]).count == added(deltas, cells[c].cell())
            &&& increments(deltas, cells[c].cell())
        }
}

/// A longer list of counters, or one with the same counters, still has those
/// that it had.
proof fn counters_stay(earlier: Seq<CounterCell>, cells: Seq<CounterCell>, cell: Cell)
    requires
        counts_cell(earlier, cell),
        earlier.len() <= cells.len(),
        forall|c: int| 0 <= c < earlier.len() ==> (#[trigger] cells[c]).cell() == earlier[c].cell(),
    ensures
        counts_cell(cells, cell),
{
    reveal(counts_cell);
    let c = choose|c: int| 0 <= c < earlier.len() && (#[trigger] earlier[c]).cell() == cell;
    assert(cells[c].cell() == cell);
}

proof fn increments_stay(deltas: Seq<CounterDelta>, cell: Cell)
    requires
        deltas.len() > 0,
        increments(deltas.drop_last(), cell),
    ensures
        increments(deltas, cell),
{
    reveal(increments);
    let seen = deltas.drop_last();
    let i = choose|i: int| 0 <= i < seen.len() && cell_of(#[trigger] seen[i]) == Some(cell);
    assert(deltas[i] == seen[i]);
}

proof fn added_is_not_negative(deltas: Seq<CounterDelta>, cell: Cell)
    ensures
        added(deltas, cell) >= 0,
    decreases deltas.len(),
{
    if deltas.len() > 0 {
        added_is_not_negative(deltas.drop_last(), cell);
    }
}

proof fn prefix_adds_less(deltas: Seq<CounterDelta>, to: int, cell: Cell)
    requires
        0 <= to <= deltas.len(),
    ensures
        added(deltas.take(to), cell) <= added(deltas, cell),
    decreases deltas.len() - to,
{
    if to < deltas.len() {
        prefix_adds_less(deltas, to + 1, cell);
        assert(deltas.take(to + 1).drop_last() =~= deltas.take(to));
    } else {
        assert(deltas.take(to) =~= deltas);
    }
}

proof fn nothing_added(deltas: Seq<CounterDelta>, cell: Cell)
    requires
        forall|i: int| 0 <= i < deltas.len() ==> cell_of(#[trigger] deltas[i]) != Some(cell),
    ensures
        added(deltas, cell) == 0,
    decreases deltas.len(),
{
    if deltas.len() > 0 {
        nothing_added(deltas.drop_last(), cell);
    }
}

/// An increment of a counter that is in the list already.
proof fn grown_still_collapses(
    earlier: Seq<CounterCell>,
    cells: Seq<CounterCell>,
    deltas: Seq<CounterDelta>,
    at: int,
)
    requires
        deltas.len() > 0,
        collapses(earlier, deltas.drop_last()),
        cells.len() == earlier.len(),
        0 <= at < earlier.len(),
        cell_of(deltas.last()) == Some(earlier[at].cell()),
        cells[at].cell() == earlier[at].cell(),
        cells[at].count == earlier[at].count + deltas.last().count,
        forall|c: int| 0 <= c < cells.len() && c != at ==> #[trigger] cells[c] == earlier[c],
    ensures
        collapses(cells, deltas),
{
    let seen = deltas.drop_last();
    assert forall|c: int| 0 <= c < cells.len() implies (#[trigger] cells[c]).cell()
        == earlier[c].cell() by {}
    assert forall|i: int| 0 <= i < deltas.len() implies (cell_of(#[trigger] deltas[i]) matches Some(
        cell,
    ) && counts_cell(cells, cell)) by {
        if i < seen.len() {
            assert(deltas[i] == seen[i]);
            counters_stay(earlier, cells, cell_of(seen[i])->0);
        } else {
            reveal(counts_cell);
            assert(cells[at].cell() == cell_of(deltas[i])->0);
        }
    }
    assert forall|c: int| 0 <= c < cells.len() implies {
        &&& (#[trigger] cells[c]).count == added(deltas, cells[c].cell())
        &&& increments(deltas, cells[c].cell())
    } by {
        assert(earlier[c].count == added(seen, earlier[c].cell()));
        increments_stay(deltas, earlier[c].cell());
    }
}

/// An increment of a counter that is not in the list yet.
proof fn opened_still_collapses(
    earlier: Seq<CounterCell>,
    opened: CounterCell,
    deltas: Seq<CounterDelta>,
)
    requires
        deltas.len() > 0,
        collapses(earlier, deltas.drop_last()),
        cell_of(deltas.last()) == Some(opened.cell()),
        opened.count == deltas.last().count,
        forall|c: int| 0 <= c < earlier.len() ==> (#[trigger] earlier[c]).cell() != opened.cell(),
    ensures
        collapses(earlier.push(opened), deltas),
{
    let seen = deltas.drop_last();
    let cells = earlier.push(opened);
    assert forall|i: int| 0 <= i < seen.len() implies cell_of(#[trigger] seen[i]) != Some(
        opened.cell(),
    ) by {
        reveal(counts_cell);
    }
    nothing_added(seen, opened.cell());
    assert forall|i: int| 0 <= i < deltas.len() implies (cell_of(#[trigger] deltas[i]) matches Some(
        cell,
    ) && counts_cell(cells, cell)) by {
        if i < seen.len() {
            assert(deltas[i] == seen[i]);
            counters_stay(earlier, cells, cell_of(seen[i])->0);
        } else {
            reveal(counts_cell);
            assert(cells[earlier.len() as int].cell() == cell_of(deltas[i])->0);
        }
    }
    assert forall|c: int| 0 <= c < cells.len() implies {
        &&& (#[trigger] cells[c]).count == added(deltas, cells[c].cell())
        &&& increments(deltas, cells[c].cell())
    } by {
        if c < earlier.len() {
            assert(earlier[c].count == added(seen, earlier[c].cell()));
            increments_stay(deltas, earlier[c].cell());
        } else {
            reveal(increments);
            assert(cell_of(deltas[deltas.len() - 1]) == Some(opened.cell()));
        }
    }
}

fn position(cells: &Vec<CounterCell>, delta: &CounterDelta, hour: Timestamp) -> (at: Option<usize>)
    requires
        hour_start(delta.at) == Some(hour),
    ensures
        match at {
            Some(c) => c < cells.len() && cell_of(*delta) == Some(cells@[c as int].cell()),
            None => forall|c: int|
                0 <= c < cells.len() ==> cell_of(*delta) != Some((#[trigger] cells@[c]).cell()),
        },
{
    for c in 0..cells.len()
        invariant
            hour_start(delta.at) == Some(hour),
            forall|b: int|
                0 <= b < c ==> cell_of(*delta) != Some((#[trigger] cells@[b]).cell()),
    {
        let cell = &cells[c];
        if cell.hour == hour && cell.kind == delta.kind && same_text(
            cell.experiment_key.as_str(),
            delta.experiment_key.as_str(),
        ) && same_text(cell.variant.as_str(), delta.variant.as_str()) {
            return Some(c);
        }
    }
    None
}

/// Adds one increment to the counters of those before it.
fn count_in(cells: &mut Vec<CounterCell>, delta: &CounterDelta, hour: Timestamp, Ghost(deltas): Ghost<
    Seq<CounterDelta>,
>)
    requires
        hour_start(delta.at) == Some(hour),
        deltas.len() > 0,
        deltas.last() == *delta,
        collapses(old(cells)@, deltas.drop_last()),
        added(deltas, cell_of(*delta)->0) <= i64::MAX,
    ensures
        collapses(final(cells)@, deltas),
{
    let ghost earlier = cells@;
    match position(cells, delta, hour) {
        Some(c) => {
            proof {
                assert(earlier[c as int].count == added(
                    deltas.drop_last(),
                    earlier[c as int].cell(),
                ));
                added_is_not_negative(deltas.drop_last(), earlier[c as int].cell());
            }
            let count: i64 = cells[c].count + delta.count as i64;
            let grown = CounterCell {
                experiment_key: cells[c].experiment_key.clone(),
                variant: cells[c].variant.clone(),
                kind: cells[c].kind,
                hour: cells[c].hour,
                count,
            };
            cells.set(c, grown);
            proof {
                grown_still_collapses(earlier, cells@, deltas, c as int);
            }
        },
        None => {
            let opened = CounterCell {
                experiment_key: delta.experiment_key.clone(),
                variant: delta.variant.clone(),
                kind: delta.kind,
                hour,
                count: delta.count as i64,
            };
            let ghost made = opened;
            cells.push(opened);
            proof {
                opened_still_collapses(earlier, made, deltas);
            }
        },
    }
}

/// The counters a batch of increments comes to, each once.
///
/// Two increments of one counter in one statement would make it touch a row
/// twice, which the database refuses.
pub fn collapse(deltas: &Vec<CounterDelta>) -> (outcome: Result<Vec<CounterCell>, StorageError>)
    requires
        forall|cell: Cell| #[trigger] added(deltas@, cell) <= i64::MAX,
    ensures
        match outcome {
            Ok(cells) => collapses(cells@, deltas@),
            Err(error) => {
                &&& error == StorageError::Invalid { entity: "counter timestamp" }
                &&& exists|i: int| 0 <= i < deltas.len() && cell_of(#[trigger] deltas@[i]) is None
            },
        },
{
    let mut cells: Vec<CounterCell> = Vec::new();
    for i in 0..deltas.len()
        invariant
            forall|cell: Cell| #[trigger] added(deltas@, cell) <= i64::MAX,
            collapses(cells@, deltas@.take(i as int)),
    {
        let ghost longer = deltas@.take(i + 1);
        assert(longer.drop_last() =~= deltas@.take(i as int));
        let delta = &deltas[i];
        let hour = match hour_of(delta.at) {
            Some(hour) => hour,
            None => {
                assert(cell_of(deltas@[i as int]) is None);
                return Err(StorageError::Invalid { entity: "counter timestamp" });
            },
        };
        proof {
            prefix_adds_less(deltas@, i + 1, cell_of(*delta)->0);
        }
        count_in(&mut cells, delta, hour, Ghost(longer));
    }
    assert(deltas@.take(deltas.len() as int) =~= deltas@);
    Ok(cells)
}

/// The counters of a batch, column by column, as the database takes them.
#[derive(Debug)]
pub struct CounterColumns {
    pub keys: Vec<String>,
    pub variants: Vec<String>,
    pub kinds: Vec<String>,
    pub hours: Vec<Timestamp>,
    pub counts: Vec<i64>,
}

impl CounterColumns {
    /// Whether the columns hold a list of counters, row by row.
    pub open spec fn hold(self, cells: Seq<CounterCell>) -> bool {
        &&& texts(self.keys@) == cells.map_values(|c: CounterCell| c.experiment_key@)
        &&& texts(self.variants@) == cells.map_values(|c: CounterCell| c.variant@)
        &&& texts(self.kinds@) == cells.map_values(|c: CounterCell| c.kind.name())
        &&& self.hours@ == cells.map_values(|c: CounterCell| c.hour)
        &&& self.counts@ == cells.map_values(|c: CounterCell| c.count)
    }
}

/// Whether an outcome is what a batch of increments comes to: columns that hold
/// its counters, or the error that an increment's time has no hour.
pub open spec fn ingests(
    outcome: Result<CounterColumns, StorageError>,
    deltas: Seq<CounterDelta>,
) -> bool {
    match outcome {
        Ok(columns) => exists|cells: Seq<CounterCell>| #[trigger]
            collapses(cells, deltas) && columns.hold(cells),
        Err(error) => {
            &&& error == StorageError::Invalid { entity: "counter timestamp" }
            &&& exists|i: int| 0 <= i < deltas.len() && cell_of(#[trigger] deltas[i]) is None
        },
    }
}

/// What to send to the database for a batch of increments: every counter once,
/// with what the batch adds to it. Fails where an increment's time has no hour.
///
/// The database drops increments of experiments that are unknown or not running:
/// a batch that straddles the end of an experiment is routine.
pub fn ingest_counters(deltas: &Vec<CounterDelta>) -> (outcome: Result<
    CounterColumns,
    StorageError,
>)
    requires
        forall|cell: Cell| #[trigger] added(deltas@, cell) <= i64::MAX,
    ensures
        ingests(outcome, deltas@),
{
    let cells = match collapse(deltas) {
        Ok(cells) => cells,
        Err(error) => {
            return Err(error);
        },
    };
    let ghost all = cells@;
    let mut columns = CounterColumns {
        keys: Vec::new(),
        variants: Vec::new(),
        kinds: Vec::new(),
        hours: Vec::new(),
        counts: Vec::new(),
    };
    proof {
        let none = all.take(0);
        assert(texts(columns.keys@) =~= none.map_values(|c: CounterCell| c.experiment_key@));
        assert(texts(columns.variants@) =~= none.map_values(|c: CounterCell| c.variant@));
        assert(texts(columns.kinds@) =~= none.map_values(|c: CounterCell| c.kind.name()));
        assert(columns.hours@ =~= none.map_values(|c: CounterCell| c.hour));
        assert(columns.counts@ =~= none.map_values(|c: CounterCell| c.count));
    }
    for cell in it: cells
        invariant
            it.seq() == all,
            columns.hold(all.take(it.index())),
    {
        let ghost before = columns;
        columns.keys.push(cell.experiment_key);
        columns.variants.push(cell.variant);
        columns.kinds.push(cell.kind.as_str().to_owned());
        columns.hours.push(cell.hour);
        columns.counts.push(cell.count);
        proof {
            let shorter = all.take(it.index());
            let longer = all.take(it.index() + 1);
            assert(longer =~= shorter.push(cell));
            assert(texts(columns.keys@) =~= texts(before.keys@).push(cell.experiment_key@));
            assert(texts(columns.variants@) =~= texts(before.variants@).push(cell.variant@));
            assert(texts(columns.kinds@) =~= texts(before.kinds@).push(cell.kind.name()));
            assert(texts(columns.keys@) =~= longer.map_values(|c: CounterCell| c.experiment_key@));
            assert(texts(columns.variants@) =~= longer.map_values(|c: CounterCell| c.variant@));
            assert(texts(columns.kinds@) =~= longer.map_values(|c: CounterCell| c.kind.name()));
            assert(columns.hours@ =~= longer.map_values(|c: CounterCell| c.hour));
            assert(columns.counts@ =~= longer.map_values(|c: CounterCell| c.count));
        }
    }
    assert(all.take(all.len() as int) =~= all);
    Ok(columns)
}

/// What all the increments of a batch add up to.
pub open spec fn batch_total(deltas: Seq<CounterDelta>) -> int
    decreases deltas.len(),
{
    if deltas.len() == 0 {
        0
    } else {
        batch_total(deltas.drop_last()) + deltas.last().count
    }
}

proof fn prefix_totals_less(deltas: Seq<CounterDelta>, to: int)
    requires
        0 <= to <= deltas.len(),
    ensures
        batch_total(deltas.take(to)) <= batch_total(deltas),
    decreases deltas.len() - to,
{
    if to < deltas.len() {
        prefix_totals_less(deltas, to + 1);
        assert(deltas.take(to + 1).drop_last() =~= deltas.take(to));
    } else {
        assert(deltas.take(to) =~= deltas);
    }
}

/// No counter gets more than the whole batch adds up to.
pub proof fn no_counter_exceeds_the_batch(deltas: Seq<CounterDelta>, cell: Cell)
    ensures
        0 <= added(deltas, cell) <= batch_total(deltas),
    decreases deltas.len(),
{
    if deltas.len() > 0 {
        no_counter_exceeds_the_batch(deltas.drop_last(), cell);
    }
}

/// Whether a batch adds more to a counter than the counter can hold.
pub open spec fn overflows(deltas: Seq<CounterDelta>, cell: Cell) -> bool {
    added(deltas, cell) > i64::MAX
}

/// Whether all the increments of a batch add up to no more than one counter can
/// hold.
fn is_small(deltas: &Vec<CounterDelta>) -> (small: bool)
    ensures
        small == (batch_total(deltas@) <= i64::MAX),
{
    let mut total: i64 = 0;
    for i in 0..deltas.len()
        invariant
            0 <= total,
            total == batch_total(deltas@.take(i as int)),
    {
        assert(deltas@.take(i + 1).drop_last() =~= deltas@.take(i as int));
        proof {
            prefix_totals_less(deltas@, i + 1);
        }
        let count: i64 = deltas[i].count as i64;
        if count > i64::MAX - total {
            return false;
        }
        total = total + count;
    }
    assert(deltas@.take(deltas.len() as int) =~= deltas@);
    true
}

/// Whether the counter that an increment lands in can hold what the whole batch
/// adds to it.
fn fits(deltas: &Vec<CounterDelta>, delta: &CounterDelta, hour: Timestamp) -> (fits: bool)
    requires
        hour_start(delta.at) == Some(hour),
    ensures
        fits == !overflows(deltas@, cell_of(*delta)->0),
{
    let ghost cell = cell_of(*delta)->0;
    let mut total: i64 = 0;
    for i in 0..deltas.len()
        invariant
            hour_start(delta.at) == Some(hour),
            cell_of(*delta) == Some(cell),
            0 <= total,
            total == added(deltas@.take(i as int), cell),
    {
        assert(deltas@.take(i + 1).drop_last() =~= deltas@.take(i as int));
        proof {
            prefix_adds_less(deltas@, i + 1, cell);
        }
        let other = &deltas[i];
        let lands = match hour_of(other.at) {
            Some(at) => at == hour && other.kind == delta.kind && same_text(
                other.experiment_key.as_str(),
                delta.experiment_key.as_str(),
            ) && same_text(other.variant.as_str(), delta.variant.as_str()),
            None => false,
        };
        assert(lands == (cell_of(*other) == Some(cell)));
        if lands {
            let count: i64 = other.count as i64;
            if count > i64::MAX - total {
                return false;
            }
            total = total + count;
        }
    }
    assert(deltas@.take(deltas.len() as int) =~= deltas@);
    true
}

/// [`ingest_counters`] for a batch that came from outside: nothing where the
/// increments of some counter add up to more than the counter can hold.
pub fn ingest_batch(deltas: &Vec<CounterDelta>) -> (outcome: Option<
    Result<CounterColumns, StorageError>,
>)
    ensures
        match outcome {
            Some(outcome) => {
                &&& forall|cell: Cell| !#[trigger] overflows(deltas@, cell)
                &&& ingests(outcome, deltas@)
            },
            None => exists|cell: Cell| #[trigger] overflows(deltas@, cell),
        },
{
    if is_small(deltas) {
        assert forall|cell: Cell| !#[trigger] overflows(deltas@, cell) by {
            no_counter_exceeds_the_batch(deltas@, cell);
        }
    } else {
        for i in 0..deltas.len()
            invariant
                forall|j: int, cell: Cell|
                    0 <= j < i && cell_of(#[trigger] deltas@[j]) == Some(cell)
                        ==> !#[trigger] overflows(deltas@, cell),
        {
            let delta = &deltas[i];
            if let Some(hour) = hour_of(delta.at) {
                if !fits(deltas, delta, hour) {
                    return None;
                }
            }
        }
        assert forall|cell: Cell| !#[trigger] overflows(deltas@, cell) by {
            if overflows(deltas@, cell) {
                nothing_added(deltas@, cell);
            }
        }
    }
    assert forall|cell: Cell| #[trigger] added(deltas@, cell) <= i64::MAX by {
        assert(!overflows(deltas@, cell));
    }
    Some(ingest_counters(deltas))
}

/// How many increments of a batch are of experiments that are running.
pub open spec fn accepted_in(deltas: Seq<CounterDelta>, running: Seq<Seq<char>>) -> nat
    decreases deltas.len(),
{
    if deltas.len() == 0 {
        0
    } else {
        accepted_in(deltas.drop_last(), running) + if running.contains(
            deltas.last().experiment_key@,
        ) {
            1nat
        } else {
            0
        }
    }
}

fn is_among(list: &Vec<String>, text: &str) -> (found: bool)
    ensures
        found == texts(list@).contains(text@),
{
    for i in 0..list.len()
        invariant
            forall|j: int| 0 <= j < i ==> (#[trigger] texts(list@)[j]) != text@,
    {
        assert(texts(list@)[i as int] == list@[i as int]@);
        if same_text(list[i].as_str(), text) {
            return true;
        }
    }
    false
}

/// How many increments of a batch were accepted: those of the experiments that
/// are running, by key. The others are dropped.
pub fn accepted(deltas: &Vec<CounterDelta>, running: &Vec<String>) -> (count: u64)
    ensures
        count == accepted_in(deltas@, texts(running@)),
{
    let mut count: u64 = 0;
    for i in 0..deltas.len()
        invariant
            count == accepted_in(deltas@.take(i as int), texts(running@)),
            count <= i,
    {
        assert(deltas@.take(i + 1).drop_last() =~= deltas@.take(i as int));
        if is_among(running, deltas[i].experiment_key.as_str()) {
            count = count + 1;
        }
    }
    assert(deltas@.take(deltas.len() as int) =~= deltas@);
    count
}

/// Nothing is lost and nothing is counted twice: what the counters of a batch
/// add up to is what its increments add up to, for every counter.
pub proof fn collapsing_keeps_totals(
    cells: Seq<CounterCell>,
    deltas: Seq<CounterDelta>,
    cell: Cell,
)
    requires
        collapses(cells, deltas),
    ensures
        held(cells, cell) == added(deltas, cell),
{
    if counts_cell(cells, cell) {
        reveal(counts_cell);
        let c = choose|c: int| 0 <= c < cells.len() && (#[trigger] cells[c]).cell() == cell;
        held_once(cells, cell, c);
    } else {
        assert(forall|c: int| 0 <= c < cells.len() ==> (#[trigger] cells[c]).cell() != cell) by {
            reveal(counts_cell);
        }
        nothing_held(cells, cell);
        nothing_added(deltas, cell);
    }
}

/// What a list of counters adds to one of them in all.
pub open spec fn held(cells: Seq<CounterCell>, cell: Cell) -> int
    decreases cells.len(),
{
    if cells.len() == 0 {
        0
    } else {
        held(cells.drop_last(), cell) + if cells.last().cell() == cell {
            cells.last().count as int
        } else {
            0
        }
    }
}

proof fn nothing_held(cells: Seq<CounterCell>, cell: Cell)
    requires
        forall|c: int| 0 <= c < cells.len() ==> (#[trigger] cells[c]).cell() != cell,
    ensures
        held(cells, cell) == 0,
    decreases cells.len(),
{
    if cells.len() > 0 {
        nothing_held(cells.drop_last(), cell);
    }
}

proof fn held_once(cells: Seq<CounterCell>, cell: Cell, at: int)
    requires
        0 <= at < cells.len(),
        cells[at].cell() == cell,
        forall|a: int, b: int|
            0 <= a < b < cells.len() ==> (#[trigger] cells[a]).cell() != (
            #[trigger] cells[b]).cell(),
    ensures
        held(cells, cell) == cells[at].count,
    decreases cells.len(),
{
    if at == cells.len() - 1 {
        nothing_held(cells.drop_last(), cell);
    } else {
        held_once(cells.drop_last(), cell, at);
    }
}

/// Increments of experiments that do not run are dropped, and no others are: with
/// none running nothing is accepted, with all of them running everything is.
pub proof fn increments_count_while_their_experiment_runs(
    deltas: Seq<CounterDelta>,
    running: Seq<Seq<char>>,
)
    ensures
        accepted_in(deltas, running) <= deltas.len(),
        (forall|i: int|
            0 <= i < deltas.len() ==> !running.contains((#[trigger] deltas[i]).experiment_key@))
            ==> accepted_in(deltas, running) == 0,
        (forall|i: int|
            0 <= i < deltas.len() ==> running.contains((#[trigger] deltas[i]).experiment_key@))
            ==> accepted_in(deltas, running) == deltas.len(),
    decreases deltas.len(),
{
    if deltas.len() > 0 {
        let shorter = deltas.drop_last();
        increments_count_while_their_experiment_runs(shorter, running);
        assert(deltas[deltas.len() - 1] == deltas.last());
        assert forall|i: int| 0 <= i < shorter.len() implies #[trigger] shorter[i] == deltas[i] by {}
    }
}

/// What a counter holds once a list of counters was added. Only the counters of
/// running experiments, given by key, take what is added to them.
pub open spec fn count_after(
    count: int,
    cell: Cell,
    cells: Seq<CounterCell>,
    running: Set<Seq<char>>,
) -> int {
    if running.contains(cell.experiment_key) {
        count + held(cells, cell)
    } else {
        count
    }
}

/// A batch adds to every counter of a running experiment the sum of its
/// increments, and leaves every other counter as it was.
pub proof fn a_batch_adds_its_increments(
    count: int,
    cell: Cell,
    deltas: Seq<CounterDelta>,
    cells: Seq<CounterCell>,
    running: Set<Seq<char>>,
)
    requires
        collapses(cells, deltas),
    ensures
        running.contains(cell.experiment_key) ==> count_after(count, cell, cells, running) == count
            + added(deltas, cell),
        !running.contains(cell.experiment_key) || !increments(deltas, cell) ==> count_after(
            count,
            cell,
            cells,
            running,
        ) == count,
{
    collapsing_keeps_totals(cells, deltas, cell);
    if !increments(deltas, cell) {
        assert forall|i: int| 0 <= i < deltas.len() implies cell_of(#[trigger] deltas[i]) != Some(
            cell,
        ) by {
            reveal(increments);
        }
        nothing_added(deltas, cell);
    }
}

/// Two batches add to a counter what the one that joins them adds, and as many
/// increments are accepted.
pub proof fn batches_add_up(
    first: Seq<CounterDelta>,
    second: Seq<CounterDelta>,
    cell: Cell,
    running: Seq<Seq<char>>,
)
    ensures
        added(first + second, cell) == added(first, cell) + added(second, cell),
        accepted_in(first + second, running) == accepted_in(first, running) + accepted_in(
            second,
            running,
        ),
    decreases second.len(),
{
    if second.len() == 0 {
        assert(first + second =~= first);
    } else {
        batches_add_up(first, second.drop_last(), cell, running);
        assert((first + second).drop_last() =~= first + second.drop_last());
    }
}

/// The order of the increments in a batch does not matter: neither to what a
/// counter gets nor to how many increments are accepted.
pub proof fn order_of_increments_does_not_matter(
    deltas: Seq<CounterDelta>,
    shuffled: Seq<CounterDelta>,
    cell: Cell,
    running: Seq<Seq<char>>,
)
    requires
        deltas.to_multiset() == shuffled.to_multiset(),
    ensures
        added(deltas, cell) == added(shuffled, cell),
        accepted_in(deltas, running) == accepted_in(shuffled, running),
    decreases deltas.len(),
{
    deltas.to_multiset_ensures();
    shuffled.to_multiset_ensures();
    if deltas.len() > 0 {
        let last = deltas.last();
        assert(deltas[deltas.len() - 1] == last);
        assert(deltas.to_multiset().count(last) > 0);
        assert(shuffled.to_multiset().count(last) > 0);
        let at = choose|at: int| 0 <= at < shuffled.len() && shuffled[at] == last;
        let before = shuffled.take(at);
        let after = shuffled.skip(at + 1);
        assert(deltas.remove(deltas.len() - 1) =~= deltas.drop_last());
        assert(shuffled.remove(at) =~= before + after);
        order_of_increments_does_not_matter(deltas.drop_last(), before + after, cell, running);
        batches_add_up(before, after, cell, running);
        batches_add_up(before.push(last), after, cell, running);
        assert(before.push(last).drop_last() =~= before);
        assert(shuffled =~= before.push(last) + after);
    }
}

/// A batch may be cut: two batches, one after the other, leave in a counter what
/// the one that joins them leaves, whatever the order of its increments.
pub proof fn a_batch_may_be_cut(
    count: int,
    cell: Cell,
    first: (Seq<CounterDelta>, Seq<CounterCell>),
    second: (Seq<CounterDelta>, Seq<CounterCell>),
    whole: (Seq<CounterDelta>, Seq<CounterCell>),
    running: Set<Seq<char>>,
)
    requires
        collapses(first.1, first.0),
        collapses(second.1, second.0),
        collapses(whole.1, whole.0),
        whole.0.to_multiset() == (first.0 + second.0).to_multiset(),
    ensures
        count_after(count_after(count, cell, first.1, running), cell, second.1, running)
            == count_after(count, cell, whole.1, running),
{
    collapsing_keeps_totals(first.1, first.0, cell);
    collapsing_keeps_totals(second.1, second.0, cell);
    collapsing_keeps_totals(whole.1, whole.0, cell);
    order_of_increments_does_not_matter(whole.0, first.0 + second.0, cell, Seq::empty());
    batches_add_up(first.0, second.0, cell, Seq::empty());
}

/// What a batch adds to a counter is the sum of the counts of the increments of
/// that experiment, variant, kind and hour.
pub proof fn a_counter_gets_its_own_increments(
    deltas: Seq<CounterDelta>,
    experiment_key: Seq<char>,
    variant: Seq<char>,
    kind: CounterKind,
    hour: Timestamp,
)
    ensures
        added(deltas, Cell { experiment_key, variant, kind, hour }) == deltas.filter(
            |d: CounterDelta|
                d.experiment_key@ == experiment_key && d.variant@ == variant && d.kind == kind
                    && hour_start(d.at) == Some(hour),
        ).map_values(|d: CounterDelta| d.count as int).fold_left(0, |sum: int, n: int| sum + n),
        overflows(deltas, Cell { experiment_key, variant, kind, hour }) <==> deltas.filter(
            |d: CounterDelta|
                d.experiment_key@ == experiment_key && d.variant@ == variant && d.kind == kind
                    && hour_start(d.at) == Some(hour),
        ).map_values(|d: CounterDelta| d.count as int).fold_left(0, |sum: int, n: int| sum + n)
            > i64::MAX,
    decreases deltas.len(),
{
    reveal(Seq::filter);
    let own = |d: CounterDelta|
        d.experiment_key@ == experiment_key && d.variant@ == variant && d.kind == kind
            && hour_start(d.at) == Some(hour);
    let count = |d: CounterDelta| d.count as int;
    let plus = |sum: int, n: int| sum + n;
    if deltas.len() == 0 {
        assert(deltas.filter(own).map_values(count) =~= Seq::<int>::empty());
    } else {
        let shorter = deltas.drop_last();
        a_counter_gets_its_own_increments(shorter, experiment_key, variant, kind, hour);
        let kept = shorter.filter(own);
        if own(deltas.last()) {
            assert(deltas.filter(own) == kept.push(deltas.last()));
            let counts = kept.push(deltas.last()).map_values(count);
            assert(counts =~= kept.map_values(count).push(count(deltas.last())));
            assert(counts.drop_last() =~= kept.map_values(count));
            assert(counts.fold_left(0, plus) == kept.map_values(count).fold_left(0, plus) + count(
                deltas.last(),
            ));
        } else {
            assert(deltas.filter(own) == kept);
        }
    }
}

/// The rows sent to the database are those of the increments: there is a row for
/// every increment with its experiment, variant, kind and hour, no row without an
/// increment and no two rows for the same four.
pub proof fn what_is_sent_is_what_was_counted(
    deltas: Seq<CounterDelta>,
    columns: CounterColumns,
)
    requires
        ingests(Ok(columns), deltas),
    ensures
        columns.variants@.len() == columns.keys@.len(),
        columns.kinds@.len() == columns.keys@.len(),
        columns.hours@.len() == columns.keys@.len(),
        columns.counts@.len() == columns.keys@.len(),
        forall|i: int|
            0 <= i < deltas.len() ==> exists|r: int|
                0 <= r < columns.keys@.len() && (#[trigger] columns.keys@[r])@ == (
                #[trigger] deltas[i]).experiment_key@ && columns.variants@[r]@ == deltas[i].variant@
                    && columns.kinds@[r]@ == (if deltas[i].kind == CounterKind::Exposure {
                    "exposure"@
                } else {
                    "conversion"@
                }) && hour_start(deltas[i].at) == Some(columns.hours@[r]),
        forall|r: int|
            0 <= r < columns.keys@.len() ==> exists|i: int|
                0 <= i < deltas.len() && (#[trigger] deltas[i]).experiment_key@ == (
                #[trigger] columns.keys@[r])@ && deltas[i].variant@ == columns.variants@[r]@
                    && columns.kinds@[r]@ == (if deltas[i].kind == CounterKind::Exposure {
                    "exposure"@
                } else {
                    "conversion"@
                }) && hour_start(deltas[i].at) == Some(columns.hours@[r]),
        forall|r: int, q: int|
            0 <= r < q < columns.keys@.len() ==> (#[trigger] columns.keys@[r])@ != (
            #[trigger] columns.keys@[q])@ || columns.variants@[r]@ != columns.variants@[q]@
                || columns.kinds@[r]@ != columns.kinds@[q]@ || columns.hours@[r]
                != columns.hours@[q],
{
    let cells = choose|cells: Seq<CounterCell>| #[trigger]
        collapses(cells, deltas) && columns.hold(cells);
    let n = cells.len();
    assert(texts(columns.keys@).len() == n && texts(columns.variants@).len() == n && texts(
        columns.kinds@,
    ).len() == n);
    assert forall|r: int| 0 <= r < n implies {
        &&& (#[trigger] columns.keys@[r])@ == cells[r].experiment_key@
        &&& columns.variants@[r]@ == cells[r].variant@
        &&& columns.kinds@[r]@ == cells[r].kind.name()
        &&& columns.hours@[r] == cells[r].hour
        &&& columns.counts@[r] == cells[r].count
    } by {
        assert(texts(columns.keys@)[r] == cells[r].experiment_key@);
        assert(texts(columns.variants@)[r] == cells[r].variant@);
        assert(texts(columns.kinds@)[r] == cells[r].kind.name());
    }
    reveal_strlit("exposure");
    reveal_strlit("conversion");
    assert("exposure"@[0] == 'e' && "conversion"@[0] == 'c');
    assert forall|i: int| 0 <= i < deltas.len() implies exists|r: int|
        0 <= r < columns.keys@.len() && (#[trigger] columns.keys@[r])@ == (
        #[trigger] deltas[i]).experiment_key@ && columns.variants@[r]@ == deltas[i].variant@
            && columns.kinds@[r]@ == (if deltas[i].kind == CounterKind::Exposure {
            "exposure"@
        } else {
            "conversion"@
        }) && hour_start(deltas[i].at) == Some(columns.hours@[r]) by {
        let cell = cell_of(deltas[i])->0;
        assert(counts_cell(cells, cell));
        reveal(counts_cell);
        let r = choose|c: int| 0 <= c < cells.len() && (#[trigger] cells[c]).cell() == cell;
        assert(columns.keys@[r]@ == deltas[i].experiment_key@);
    }
    assert forall|r: int| 0 <= r < columns.keys@.len() implies exists|i: int|
        0 <= i < deltas.len() && (#[trigger] deltas[i]).experiment_key@ == (
        #[trigger] columns.keys@[r])@ && deltas[i].variant@ == columns.variants@[r]@
            && columns.kinds@[r]@ == (if deltas[i].kind == CounterKind::Exposure {
            "exposure"@
        } else {
            "conversion"@
        }) && hour_start(deltas[i].at) == Some(columns.hours@[r]) by {
        assert(increments(deltas, cells[r].cell()));
        reveal(increments);
        let i = choose|i: int|
            0 <= i < deltas.len() && cell_of(#[trigger] deltas[i]) == Some(cells[r].cell());
        assert(deltas[i].experiment_key@ == columns.keys@[r]@);
    }
    assert forall|r: int, q: int| 0 <= r < q < columns.keys@.len() implies (
    #[trigger] columns.keys@[r])@ != (#[trigger] columns.keys@[q])@ || columns.variants@[r]@
        != columns.variants@[q]@ || columns.kinds@[r]@ != columns.kinds@[q]@ || columns.hours@[r]
        != columns.hours@[q] by {
        assert(cells[r].cell() != cells[q].cell());
    }
}

/// Every row sent to the database adds the sum of the counts of the increments of
/// exactly its experiment, variant, kind and hour: no increment of another variant
/// is counted in it, and none of its own is left out.
pub proof fn a_row_adds_its_own_increments(
    deltas: Seq<CounterDelta>,
    columns: CounterColumns,
    r: int,
)
    requires
        ingests(Ok(columns), deltas),
        0 <= r < columns.keys@.len(),
    ensures
        columns.kinds@[r]@ == "exposure"@ || columns.kinds@[r]@ == "conversion"@,
        ({
            let key = columns.keys@[r]@;
            let variant = columns.variants@[r]@;
            let kind = if columns.kinds@[r]@ == "exposure"@ {
                CounterKind::Exposure
            } else {
                CounterKind::Conversion
            };
            let hour = columns.hours@[r];
            columns.counts@[r] == deltas.filter(
                |d: CounterDelta|
                    d.experiment_key@ == key && d.variant@ == variant && d.kind == kind
                        && hour_start(d.at) == Some(hour),
            ).map_values(|d: CounterDelta| d.count as int).fold_left(0, |sum: int, n: int| sum + n)
        }),
{
    let cells = choose|cells: Seq<CounterCell>| #[trigger]
        collapses(cells, deltas) && columns.hold(cells);
    let n = cells.len();
    assert(texts(columns.keys@).len() == n && texts(columns.variants@).len() == n && texts(
        columns.kinds@,
    ).len() == n);
    let cell = cells[r];
    assert(texts(columns.keys@)[r] == cell.experiment_key@);
    assert(texts(columns.variants@)[r] == cell.variant@);
    assert(texts(columns.kinds@)[r] == cell.kind.name());
    assert(columns.hours@[r] == cell.hour);
    assert(columns.counts@[r] == cell.count);
    reveal_strlit("exposure");
    reveal_strlit("conversion");
    assert("exposure"@[0] == 'e' && "conversion"@[0] == 'c');
    a_counter_gets_its_own_increments(
        deltas,
        cell.experiment_key@,
        cell.variant@,
        cell.kind,
        cell.hour,
    );
    assert(cell.cell() == Cell {
        experiment_key: cell.experiment_key@,
        variant: cell.variant@,
        kind: cell.kind,
        hour: cell.hour,
    });
}

/// A batch is refused for one reason only: an increment's time has no hour.
pub proof fn a_batch_is_refused_for_its_times_only(deltas: Seq<CounterDelta>, error: StorageError)
    requires
        ingests(Err(error), deltas),
    ensures
        error == (StorageError::Invalid { entity: "counter timestamp" }),
        exists|i: int| 0 <= i < deltas.len() && hour_start((#[trigger] deltas[i]).at) is None,
{
    let i = choose|i: int| 0 <= i < deltas.len() && cell_of(#[trigger] deltas[i]) is None;
    assert(hour_start(deltas[i].at) is None);
}

/// The increments that are accepted are those of the running experiments, each
/// counted once.
pub proof fn accepted_are_those_of_running_experiments(
    deltas: Seq<CounterDelta>,
    running: Seq<Seq<char>>,
)
    ensures
        accepted_in(deltas, running) == deltas.filter(
            |d: CounterDelta| running.contains(d.experiment_key@),
        ).len(),
    decreases deltas.len(),
{
    reveal(Seq::filter);
    if deltas.len() > 0 {
        accepted_are_those_of_running_experiments(deltas.drop_last(), running);
    }
}

// -------------------------------------------------------------------- results

/// What was counted for a variant in one of the two kinds.
#[derive(Debug)]
pub struct CountRow {
    pub variant: String,
    pub kind: String,
    pub total: i64,
}

/// The variants of a list of rows, each once, in the order they first appear.
pub open spec fn variants_seen(rows: Seq<CountRow>) -> Seq<Seq<char>>
    decreases rows.len(),
{
    if rows.len() == 0 {
        Seq::empty()
    } else {
        let seen = variants_seen(rows.drop_last());
        if seen.contains(rows.last().variant@) {
            seen
        } else {
            seen.push(rows.last().variant@)
        }
    }
}

/// What was last counted for a variant: of exposures, or of anything else. A
/// negative total counts as none.
pub open spec fn last_total(rows: Seq<CountRow>, variant: Seq<char>, exposures: bool) -> int
    decreases rows.len(),
{
    if rows.len() == 0 {
        0
    } else if rows.last().variant@ == variant && (rows.last().kind@ == "exposure"@) == exposures {
        if rows.last().total < 0 {
            0
        } else {
            rows.last().total as int
        }
    } else {
        last_total(rows.drop_last(), variant, exposures)
    }
}

/// Every variant of the rows is seen exactly once, and no other.
pub proof fn each_variant_is_seen_once(rows: Seq<CountRow>)
    ensures
        variants_seen(rows).no_duplicates(),
        forall|v: Seq<char>|
            variants_seen(rows).contains(v) <==> exists|i: int|
                0 <= i < rows.len() && (#[trigger] rows[i]).variant@ == v,
    decreases rows.len(),
{
    if rows.len() > 0 {
        let shorter = rows.drop_last();
        each_variant_is_seen_once(shorter);
        let seen = variants_seen(shorter);
        let all = variants_seen(rows);
        assert forall|v: Seq<char>| all.contains(v) <==> exists|i: int|
            0 <= i < rows.len() && (#[trigger] rows[i]).variant@ == v by {
            if all.contains(v) {
                if seen.contains(v) {
                    let i = choose|i: int|
                        0 <= i < shorter.len() && (#[trigger] shorter[i]).variant@ == v;
                    assert(rows[i].variant@ == v);
                } else {
                    assert(rows[rows.len() - 1].variant@ == v);
                }
            }
            if exists|i: int| 0 <= i < rows.len() && (#[trigger] rows[i]).variant@ == v {
                let i = choose|i: int| 0 <= i < rows.len() && (#[trigger] rows[i]).variant@ == v;
                if i < shorter.len() {
                    assert(shorter[i].variant@ == v);
                    assert(seen.contains(v));
                    let s = choose|s: int| 0 <= s < seen.len() && seen[s] == v;
                    assert(all[s] == v);
                } else if !seen.contains(v) {
                    assert(all[seen.len() as int] == v);
                }
            }
        }
    }
}

/// Whether a list of counts is what the rows come to.
pub open spec fn counts_of(counts: Seq<VariantCounts>, rows: Seq<CountRow>) -> bool {
    &&& counts.map_values(|c: VariantCounts| c.variant@) == variants_seen(rows)
    &&& forall|c: int|
        0 <= c < counts.len() ==> {
            &&& (#[trigger] counts[c]).exposures == last_total(rows, counts[c].variant@, true)
            &&& counts[c].conversions == last_total(rows, counts[c].variant@, false)
        }
}

proof fn unseen_has_no_total(rows: Seq<CountRow>, variant: Seq<char>, exposures: bool)
    requires
        !variants_seen(rows).contains(variant),
    ensures
        last_total(rows, variant, exposures) == 0,
    decreases rows.len(),
{
    if rows.len() > 0 {
        let seen = variants_seen(rows.drop_last());
        if rows.last().variant@ == variant && !seen.contains(variant) {
            assert(seen.push(variant)[seen.len() as int] == variant);
        }
        if seen.contains(variant) {
            let s = choose|s: int| 0 <= s < seen.len() && seen[s] == variant;
            assert(seen.push(rows.last().variant@)[s] == variant);
        }
        unseen_has_no_total(rows.drop_last(), variant, exposures);
    }
}

/// Exposures and conversions per variant.
///
/// A variant is there only once something was counted for it; filling in the
/// others is for whoever shows the result.
pub fn experiment_counts(rows: &Vec<CountRow>) -> (counts: Vec<VariantCounts>)
    ensures
        counts_of(counts@, rows@),
{
    let mut counts: Vec<VariantCounts> = Vec::new();
    assert(counts@.map_values(|c: VariantCounts| c.variant@) =~= variants_seen(
        rows@.take(0),
    ));
    for i in 0..rows.len()
        invariant
            counts_of(counts@, rows@.take(i as int)),
    {
        let ghost shorter = rows@.take(i as int);
        let ghost longer = rows@.take(i + 1);
        let ghost seen = variants_seen(shorter);
        let ghost earlier = counts@;
        assert(longer.drop_last() =~= shorter);
        let row = &rows[i];
        let mut at: usize = 0;
        while at < counts.len() && !same_text(counts[at].variant.as_str(), row.variant.as_str())
            invariant
                at <= counts.len(),
                counts@ == earlier,
                row == &rows@[i as int],
                forall|c: int| 0 <= c < at ==> (#[trigger] counts@[c]).variant@ != row.variant@,
            decreases counts.len() - at,
        {
            at = at + 1;
        }
        if at == counts.len() {
            counts.push(VariantCounts { variant: row.variant.clone(), exposures: 0, conversions: 0 });
            proof {
                assert forall|s: int| 0 <= s < seen.len() implies seen[s] != row.variant@ by {
                    assert(seen[s] == earlier[s].variant@);
                }
                unseen_has_no_total(shorter, row.variant@, true);
                unseen_has_no_total(shorter, row.variant@, false);
                assert(counts@.map_values(|c: VariantCounts| c.variant@) =~= seen.push(
                    row.variant@,
                ));
            }
        } else {
            assert(seen[at as int] == earlier[at as int].variant@);
        }
        let total: u64 = if row.total < 0 {
            0
        } else {
            row.total as u64
        };
        let counted = if same_text(row.kind.as_str(), "exposure") {
            VariantCounts {
                variant: row.variant.clone(),
                exposures: total,
                conversions: counts[at].conversions,
            }
        } else {
            VariantCounts {
                variant: row.variant.clone(),
                exposures: counts[at].exposures,
                conversions: total,
            }
        };
        let ghost opened = counts@;
        proof {
            each_variant_is_seen_once(longer);
            assert(opened.map_values(|c: VariantCounts| c.variant@) =~= variants_seen(longer));
        }
        counts.set(at, counted);
        proof {
            assert(counts@.map_values(|c: VariantCounts| c.variant@) =~= variants_seen(longer));
            assert forall|c: int| 0 <= c < counts.len() implies {
                &&& (#[trigger] counts@[c]).exposures == last_total(
                    longer,
                    counts@[c].variant@,
                    true,
                )
                &&& counts@[c].conversions == last_total(longer, counts@[c].variant@, false)
            } by {
                assert(variants_seen(longer)[c] == opened[c].variant@);
                assert(variants_seen(longer)[at as int] == opened[at as int].variant@);
                if c != at {
                    assert(counts@[c] == opened[c]);
                    assert(opened[c] == earlier[c]);
                }
            }
        }
    }
    assert(rows@.take(rows.len() as int) =~= rows@);
    counts
}

/// What is counted for a variant is what the last row of that variant and kind
/// says, and nothing where there is no such row; a negative total counts as none.
proof fn the_last_row_counts(rows: Seq<CountRow>, variant: Seq<char>, exposures: bool)
    ensures
        forall|i: int|
            0 <= i < rows.len() && (#[trigger] rows[i]).variant@ == variant && (rows[i].kind@
                == "exposure"@) == exposures && (forall|j: int|
                i < j < rows.len() ==> !((#[trigger] rows[j]).variant@ == variant && (rows[j].kind@
                    == "exposure"@) == exposures)) ==> last_total(rows, variant, exposures) == (
            if rows[i].total < 0 {
                0
            } else {
                rows[i].total as int
            }),
        (forall|j: int|
            0 <= j < rows.len() ==> !((#[trigger] rows[j]).variant@ == variant && (rows[j].kind@
                == "exposure"@) == exposures)) ==> last_total(rows, variant, exposures) == 0,
    decreases rows.len(),
{
    if rows.len() > 0 {
        let shorter = rows.drop_last();
        the_last_row_counts(shorter, variant, exposures);
        assert(rows[rows.len() - 1] == rows.last());
        let hit = rows.last().variant@ == variant && (rows.last().kind@ == "exposure"@)
            == exposures;
        assert forall|i: int|
            0 <= i < rows.len() && (#[trigger] rows[i]).variant@ == variant && (rows[i].kind@
                == "exposure"@) == exposures && (forall|j: int|
                i < j < rows.len() ==> !((#[trigger] rows[j]).variant@ == variant && (rows[j].kind@
                    == "exposure"@) == exposures)) implies last_total(rows, variant, exposures) == (
        if rows[i].total < 0 {
            0
        } else {
            rows[i].total as int
        }) by {
            if i < rows.len() - 1 {
                assert(!hit);
                assert(shorter[i] == rows[i]);
                assert forall|j: int| i < j < shorter.len() implies !((
                #[trigger] shorter[j]).variant@ == variant && (shorter[j].kind@ == "exposure"@)
                    == exposures) by {
                    assert(shorter[j] == rows[j]);
                }
            }
        }
        if forall|j: int|
            0 <= j < rows.len() ==> !((#[trigger] rows[j]).variant@ == variant && (rows[j].kind@
                == "exposure"@) == exposures) {
            assert(!hit);
            assert forall|j: int| 0 <= j < shorter.len() implies !((#[trigger] shorter[j]).variant@
                == variant && (shorter[j].kind@ == "exposure"@) == exposures) by {
                assert(shorter[j] == rows[j]);
            }
        }
    }
}

/// The counts of an experiment are those of its rows: one for every variant that
/// has a row, and no other.
pub proof fn every_variant_is_counted_once(counts: Seq<VariantCounts>, rows: Seq<CountRow>)
    requires
        counts_of(counts, rows),
    ensures
        forall|c: int, d: int|
            0 <= c < d < counts.len() ==> (#[trigger] counts[c]).variant@ != (
            #[trigger] counts[d]).variant@,
        forall|i: int|
            0 <= i < rows.len() ==> exists|c: int|
                0 <= c < counts.len() && (#[trigger] counts[c]).variant@ == (
                #[trigger] rows[i]).variant@,
        forall|c: int|
            0 <= c < counts.len() ==> exists|i: int|
                0 <= i < rows.len() && (#[trigger] rows[i]).variant@ == (
                #[trigger] counts[c]).variant@,
{
    let seen = variants_seen(rows);
    each_variant_is_seen_once(rows);
    assert(seen.len() == counts.len());
    assert forall|c: int| 0 <= c < counts.len() implies seen[c] == (
    #[trigger] counts[c]).variant@ by {}
    assert forall|i: int| 0 <= i < rows.len() implies exists|c: int|
        0 <= c < counts.len() && (#[trigger] counts[c]).variant@ == (
        #[trigger] rows[i]).variant@ by {
        assert(seen.contains(rows[i].variant@));
        let c = choose|c: int| 0 <= c < seen.len() && seen[c] == rows[i].variant@;
        assert(counts[c].variant@ == rows[i].variant@);
    }
    assert forall|c: int| 0 <= c < counts.len() implies exists|i: int|
        0 <= i < rows.len() && (#[trigger] rows[i]).variant@ == (
        #[trigger] counts[c]).variant@ by {
        assert(seen.contains(seen[c]));
    }
    assert forall|c: int, d: int| 0 <= c < d < counts.len() implies (#[trigger] counts[c]).variant@
        != (#[trigger] counts[d]).variant@ by {
        assert(seen[c] != seen[d]);
    }
}

/// What is counted for a variant is what its own row says: the exposures those of
/// the row of exposures, the conversions those of the other. A negative total
/// counts as none.
pub proof fn a_variant_counts_its_own_rows(
    counts: Seq<VariantCounts>,
    rows: Seq<CountRow>,
    c: int,
    i: int,
)
    requires
        counts_of(counts, rows),
        0 <= c < counts.len(),
        0 <= i < rows.len(),
        rows[i].variant@ == counts[c].variant@,
        forall|j: int|
            i < j < rows.len() && (#[trigger] rows[j]).variant@ == rows[i].variant@ ==> (
            rows[j].kind@ == "exposure"@) != (rows[i].kind@ == "exposure"@),
    ensures
        ({
            let total = if rows[i].total < 0 {
                0
            } else {
                rows[i].total as int
            };
            if rows[i].kind@ == "exposure"@ {
                counts[c].exposures == total
            } else {
                counts[c].conversions == total
            }
        }),
{
    the_last_row_counts(rows, counts[c].variant@, rows[i].kind@ == "exposure"@);
}

/// A variant without a row of a kind has nothing of that kind.
pub proof fn a_variant_without_rows_counts_nothing(
    counts: Seq<VariantCounts>,
    rows: Seq<CountRow>,
    c: int,
    exposures: bool,
)
    requires
        counts_of(counts, rows),
        0 <= c < counts.len(),
        forall|j: int|
            0 <= j < rows.len() && (#[trigger] rows[j]).variant@ == counts[c].variant@ ==> (
            rows[j].kind@ == "exposure"@) != exposures,
    ensures
        exposures ==> counts[c].exposures == 0,
        !exposures ==> counts[c].conversions == 0,
{
    the_last_row_counts(rows, counts[c].variant@, exposures);
}

/// Variants are counted in the order in which they first appear: of two, the one
/// in front has a row before any row of the other.
pub proof fn variants_are_counted_as_they_appear(
    counts: Seq<VariantCounts>,
    rows: Seq<CountRow>,
    c: int,
    d: int,
)
    requires
        counts_of(counts, rows),
        0 <= c < d < counts.len(),
    ensures
        exists|i: int|
            {
                &&& 0 <= i < rows.len()
                &&& (#[trigger] rows[i]).variant@ == counts[c].variant@
                &&& forall|j: int|
                    0 <= j <= i ==> (#[trigger] rows[j]).variant@ != counts[d].variant@
            },
{
    let seen = variants_seen(rows);
    let names = counts.map_values(|count: VariantCounts| count.variant@);
    assert(names == seen);
    assert(names[c] == counts[c].variant@ && names[d] == counts[d].variant@);
    seen_in_order(rows, c, d);
}

proof fn seen_in_order(rows: Seq<CountRow>, c: int, d: int)
    requires
        0 <= c < d < variants_seen(rows).len(),
    ensures
        exists|i: int|
            {
                &&& 0 <= i < rows.len()
                &&& (#[trigger] rows[i]).variant@ == variants_seen(rows)[c]
                &&& forall|j: int|
                    0 <= j <= i ==> (#[trigger] rows[j]).variant@ != variants_seen(rows)[d]
            },
    decreases rows.len(),
{
    let shorter = rows.drop_last();
    let before = variants_seen(shorter);
    let all = variants_seen(rows);
    assert forall|j: int| 0 <= j < shorter.len() implies #[trigger] rows[j] == shorter[j] by {}
    each_variant_is_seen_once(shorter);
    if d < before.len() {
        seen_in_order(shorter, c, d);
        let i = choose|i: int|
            {
                &&& 0 <= i < shorter.len()
                &&& (#[trigger] shorter[i]).variant@ == before[c]
                &&& forall|j: int|
                    0 <= j <= i ==> (#[trigger] shorter[j]).variant@ != before[d]
            };
        assert(rows[i].variant@ == all[c]);
        assert forall|j: int| 0 <= j <= i implies (#[trigger] rows[j]).variant@ != all[d] by {
            assert(shorter[j].variant@ != before[d]);
        }
    } else {
        assert(all[d] == rows.last().variant@);
        assert(!before.contains(all[d]));
        assert(before.contains(before[c]));
        let i = choose|i: int| 0 <= i < shorter.len() && (#[trigger] shorter[i]).variant@ == before[c];
        assert(rows[i].variant@ == all[c]);
        assert forall|j: int| 0 <= j <= i implies (#[trigger] rows[j]).variant@ != all[d] by {
            if shorter[j].variant@ == all[d] {
                assert(before.contains(all[d]));
            }
        }
    }
}

} // verus!
