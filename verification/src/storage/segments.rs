//! Reusable audiences, scoped to an environment.

use vstd::prelude::*;

use crate::domain;
use crate::domain::SegmentRule;
use crate::ids::Uuid;
use crate::keyset::{ascending, KeySet};
use crate::storage::error::{
    affected, decoded, decoded_or_malformed, reports_write, written, FoundExt, StorageError,
};
use crate::storage::json::{json_string, write_json_string};
use crate::storage::models::{defines, Segment};
use crate::storage::rows::{gather, gathers};
use crate::text::texts;
use crate::time::Timestamp;

verus! {

/// A row of the segments table; the three documents may not decode.
#[derive(Debug)]
pub struct SegmentRow {
    pub id: Uuid,
    pub environment_id: Uuid,
    pub key: String,
    pub name: String,
    pub description: Option<String>,
    pub included: Result<KeySet, serde_json::Error>,
    pub excluded: Result<KeySet, serde_json::Error>,
    pub rules: Result<Vec<SegmentRule>, serde_json::Error>,
    pub version: i64,
    pub created_at: Timestamp,
    pub updated_at: Timestamp,
}

/// The segment in a row, or why there is none.
pub open spec fn segment_of(row: SegmentRow) -> Result<Segment, StorageError> {
    match decoded_or_malformed(row.included, "segment") {
        Ok(included) => match decoded_or_malformed(row.excluded, "segment") {
            Ok(excluded) => match decoded_or_malformed(row.rules, "segment") {
                Ok(rules) => Ok(
                    Segment {
                        id: row.id,
                        environment_id: row.environment_id,
                        key: row.key,
                        name: row.name,
                        description: row.description,
                        included,
                        excluded,
                        rules,
                        version: row.version,
                        created_at: row.created_at,
                        updated_at: row.updated_at,
                    },
                ),
                Err(error) => Err(error),
            },
            Err(error) => Err(error),
        },
        Err(error) => Err(error),
    }
}

/// The segment in a row, or why there is none.
pub fn build(row: SegmentRow) -> (segment: Result<Segment, StorageError>)
    ensures
        segment == segment_of(row),
{
    match decoded(row.included, "segment") {
        Ok(included) => match decoded(row.excluded, "segment") {
            Ok(excluded) => match decoded(row.rules, "segment") {
                Ok(rules) => Ok(
                    Segment {
                        id: row.id,
                        environment_id: row.environment_id,
                        key: row.key,
                        name: row.name,
                        description: row.description,
                        included,
                        excluded,
                        rules,
                        version: row.version,
                        created_at: row.created_at,
                        updated_at: row.updated_at,
                    },
                ),
                Err(error) => Err(error),
            },
            Err(error) => Err(error),
        },
        Err(error) => Err(error),
    }
}

/// A new segment, or what the refusal to insert it means.
pub fn create_segment(inserted: Result<SegmentRow, sqlx::Error>, key: &str) -> (created: Result<
    Segment,
    StorageError,
>)
    ensures
        match inserted {
            Ok(row) => created == segment_of(row),
            Err(error) => created matches Err(reported) && reports_write(
                reported,
                error,
                "segment",
                key@,
            ),
        },
{
    match written(inserted, "segment", key) {
        Ok(row) => build(row),
        Err(error) => Err(error),
    }
}

/// The segments of an environment, in the order of the rows. One that does not
/// decode fails the whole list.
pub fn list_segments(rows: Vec<SegmentRow>) -> (segments: Result<Vec<Segment>, StorageError>)
    ensures
        gathers(segments, rows@.map_values(|row: SegmentRow| segment_of(row))),
{
    let ghost all = rows@;
    let mut built: Vec<Result<Segment, StorageError>> = Vec::new();
    for row in it: rows
        invariant
            it.seq() == all,
            built@ == all.take(it.index()).map_values(|row: SegmentRow| segment_of(row)),
    {
        built.push(build(row));
    }
    assert(all.take(all.len() as int) =~= all);
    gather(built)
}

/// The segment an environment has under a key.
pub fn find_segment(row: Option<SegmentRow>) -> (found: Result<Segment, StorageError>)
    ensures
        found == (match row {
            Some(row) => segment_of(row),
            None => Err(StorageError::NotFound { entity: "segment" }),
        }),
{
    match row.or_not_found("segment") {
        Ok(row) => build(row),
        Err(error) => Err(error),
    }
}

/// Whether a segment may be rewritten: it has to exist, to decode, and to be at
/// the version the writer read.
///
/// Looking first is what tells a version mismatch from a missing segment; an
/// update that touches no row cannot. On success it hands back the version that
/// was found.
pub fn check_segment(current: Option<SegmentRow>, expected_version: Option<i64>) -> (version:
    Result<i64, StorageError>)
    ensures
        version == (match current {
            None => Err(StorageError::NotFound { entity: "segment" }),
            Some(row) => match segment_of(row) {
                Err(error) => Err(error),
                Ok(segment) => match expected_version {
                    Some(expected) if segment.version != expected => Err(
                        StorageError::VersionConflict { entity: "segment", expected },
                    ),
                    _ => Ok(segment.version),
                },
            },
        }),
{
    let segment = match find_segment(current) {
        Ok(segment) => segment,
        Err(error) => {
            return Err(error);
        },
    };
    if let Some(expected) = expected_version {
        if segment.version != expected {
            return Err(StorageError::VersionConflict { entity: "segment", expected });
        }
    }
    Ok(segment.version)
}

/// A segment just rewritten. `found_version` is what [`check_segment`] found.
///
/// No row means that somebody else wrote in between.
pub fn update_segment(
    updated: Result<Option<SegmentRow>, sqlx::Error>,
    key: &str,
    expected_version: Option<i64>,
    found_version: i64,
) -> (segment: Result<Segment, StorageError>)
    ensures
        match updated {
            Ok(Some(row)) => segment == segment_of(row),
            Ok(None) => segment == Err::<Segment, StorageError>(
                StorageError::VersionConflict {
                    entity: "segment",
                    expected: match expected_version {
                        Some(expected) => expected,
                        None => found_version,
                    },
                },
            ),
            Err(error) => segment matches Err(reported) && reports_write(
                reported,
                error,
                "segment",
                key@,
            ),
        },
{
    match written(updated, "segment", key) {
        Ok(Some(row)) => build(row),
        Ok(None) => {
            let expected: i64 = match expected_version {
                Some(expected) => expected,
                None => found_version,
            };
            Err(StorageError::VersionConflict { entity: "segment", expected })
        },
        Err(error) => Err(error),
    }
}

/// The JSON document that a rule set contains when one of its rules names the
/// segment under `side`.
pub open spec fn reference_pattern(side: Seq<char>, segment_key: Seq<char>) -> Seq<char> {
    "[{\"segments\":{\""@ + side + "\":["@ + json_string(segment_key) + "]}}]"@
}

fn write_pattern(side: &str, segment_key: &str) -> (pattern: String)
    ensures
        pattern@ == reference_pattern(side@, segment_key@),
{
    let mut pattern: String = "[{\"segments\":{\"".to_owned();
    pattern.append(side);
    pattern.append("\":[");
    pattern.append(write_json_string(segment_key).as_str());
    pattern.append("]}}]");
    pattern
}

/// What to look for in the rules of an environment to find the flags that
/// reference a segment, be it to include its members or to leave them out.
///
/// The reference lives inside a JSON document, where no foreign key reaches, so
/// the database is asked for containment of either pattern.
pub fn referencing_flags(segment_key: &str) -> (patterns: (String, String))
    ensures
        patterns.0@ == reference_pattern("any_of"@, segment_key@),
        patterns.1@ == reference_pattern("none_of"@, segment_key@),
        patterns.0@ == "[{\"segments\":{\""@ + "any_of"@ + "\":["@ + json_string(segment_key@)
            + "]}}]"@,
        patterns.1@ == "[{\"segments\":{\""@ + "none_of"@ + "\":["@ + json_string(segment_key@)
            + "]}}]"@,
{
    (write_pattern("any_of", segment_key), write_pattern("none_of", segment_key))
}

/// Whether a segment may be deleted: not while any flag rule references it.
///
/// A rule whose segment is gone matches nobody. Refusing turns that into an
/// error somebody reads before anything changes.
pub fn check_unreferenced(key: &str, referencing: Vec<String>) -> (outcome: Result<
    (),
    StorageError,
>)
    ensures
        match outcome {
            Ok(_) => referencing@.len() == 0,
            Err(StorageError::InUse { entity, key: named, referenced_by }) => {
                &&& referencing@.len() > 0
                &&& entity == "segment"
                &&& named@ == key@
                &&& referenced_by == referencing
            },
            Err(_) => false,
        },
{
    if referencing.len() > 0 {
        return Err(
            StorageError::InUse {
                entity: "segment",
                key: key.to_owned(),
                referenced_by: referencing,
            },
        );
    }
    Ok(())
}

/// Whether a segment was there to delete.
pub fn delete_segment(rows_affected: u64) -> (outcome: Result<(), StorageError>)
    ensures
        outcome == (if rows_affected == 0 {
            Err::<(), StorageError>(StorageError::NotFound { entity: "segment" })
        } else {
            Ok(())
        }),
{
    affected(rows_affected, "segment")
}

/// The keys defined in one environment, each once and in order.
pub fn segment_keys(keys: &Vec<String>) -> (set: KeySet)
    ensures
        ascending(set@),
        set@.to_set() == texts(keys@).to_set(),
{
    KeySet::of(keys)
}

/// What the engine is given of the segments of an environment.
pub fn load_environment_segments(rows: Vec<SegmentRow>) -> (definitions: Result<
    Vec<domain::Segment>,
    StorageError,
>)
    ensures
        match definitions {
            Ok(made) => {
                &&& made.len() == rows.len()
                &&& forall|i: int|
                    0 <= i < rows.len() ==> (segment_of(#[trigger] rows@[i]) matches Ok(segment)
                        && defines(made@[i], segment))
                &&& forall|i: int|
                    0 <= i < rows.len() ==> {
                        &&& (#[trigger] made@[i]).key@ == rows@[i].key@
                        &&& made@[i].description == rows@[i].description
                        &&& rows@[i].included is Ok && made@[i].included@
                            == rows@[i].included->Ok_0@
                        &&& rows@[i].excluded is Ok && made@[i].excluded@
                            == rows@[i].excluded->Ok_0@
                        &&& rows@[i].rules is Ok && made@[i].rules@.len()
                            == rows@[i].rules->Ok_0@.len()
                        &&& made@[i].version == rows@[i].version
                    }
            },
            Err(error) => gathers(
                Err::<Vec<Segment>, StorageError>(error),
                rows@.map_values(|row: SegmentRow| segment_of(row)),
            ),
        },
{
    let ghost all = rows@.map_values(|row: SegmentRow| segment_of(row));
    let ghost given = rows@;
    let segments = match list_segments(rows) {
        Ok(segments) => segments,
        Err(error) => {
            return Err(error);
        },
    };
    let mut made: Vec<domain::Segment> = Vec::new();
    for i in 0..segments.len()
        invariant
            made.len() == i,
            forall|j: int| 0 <= j < i ==> defines(#[trigger] made@[j], segments@[j]),
    {
        made.push(segments[i].definition());
    }
    assert forall|i: int| 0 <= i < given.len() implies (segment_of(#[trigger] given[i]) matches Ok(
        segment,
    ) && defines(made@[i], segment)) by {
        assert(all[i] == segment_of(given[i]));
        assert(defines(made@[i], segments@[i]));
    }
    proof {
        assert forall|i: int| 0 <= i < given.len() implies {
            &&& (#[trigger] made@[i]).key@ == given[i].key@
            &&& made@[i].description == given[i].description
            &&& given[i].included is Ok && made@[i].included@ == given[i].included->Ok_0@
            &&& given[i].excluded is Ok && made@[i].excluded@ == given[i].excluded->Ok_0@
            &&& given[i].rules is Ok && made@[i].rules@.len() == given[i].rules->Ok_0@.len()
            &&& made@[i].version == given[i].version
        } by {
            a_segment_carries_its_row(given[i]);
            let segment = segment_of(given[i])->Ok_0;
            assert(defines(made@[i], segment));
            assert(domain::segment_rule_models(made@[i].rules@).len()
                == domain::segment_rule_models(segment.rules@).len());
        }
    }
    Ok(made)
}

/// A segment carries what its row holds, field by field: who is included is not
/// who is excluded. A row of which a document does not decode is malformed, with
/// the first decoder's error.
pub proof fn a_segment_carries_its_row(row: SegmentRow)
    ensures
        match (row.included, row.excluded, row.rules) {
            (Ok(included), Ok(excluded), Ok(rules)) => {
                &&& segment_of(row) matches Ok(segment)
                &&& segment.id == row.id
                &&& segment.environment_id == row.environment_id
                &&& segment.key@ == row.key@
                &&& segment.name@ == row.name@
                &&& segment.description == row.description
                &&& segment.included@ == included@
                &&& segment.excluded@ == excluded@
                &&& segment.rules@ == rules@
                &&& segment.version == row.version
                &&& segment.created_at == row.created_at
                &&& segment.updated_at == row.updated_at
            },
            (Err(error), _, _) => segment_of(row) == Err::<Segment, StorageError>(
                StorageError::Malformed { entity: "segment", source: error },
            ),
            (_, Err(error), _) => segment_of(row) == Err::<Segment, StorageError>(
                StorageError::Malformed { entity: "segment", source: error },
            ),
            (_, _, Err(error)) => segment_of(row) == Err::<Segment, StorageError>(
                StorageError::Malformed { entity: "segment", source: error },
            ),
        },
{
}

/// What the engine is given of a segment is the segment's own definition, field
/// by field, rule by rule.
pub proof fn a_definition_carries_its_segment(definition: domain::Segment, segment: Segment)
    requires
        defines(definition, segment),
    ensures
        definition.key@ == segment.key@,
        definition.description == segment.description,
        definition.included@ == segment.included@,
        definition.excluded@ == segment.excluded@,
        definition.version == segment.version,
        definition.rules@.len() == segment.rules@.len(),
        forall|i: int|
            0 <= i < segment.rules@.len() ==> (#[trigger] definition.rules@[i])@
                == segment.rules@[i]@,
{
    let made = domain::segment_rule_models(definition.rules@);
    let given = domain::segment_rule_models(segment.rules@);
    assert(made.len() == given.len());
    assert forall|i: int| 0 <= i < segment.rules@.len() implies (#[trigger] definition.rules@[i])@
        == segment.rules@[i]@ by {
        assert(made[i] == given[i]);
    }
}

} // verus!
