//! Reusable audiences for one environment.

use vstd::prelude::*;

use crate::domain::{
    condition_models, copy_segment_rules, is_text, segment_rule_models, Condition, RolloutModel,
    SegmentRollout, SegmentRule, SegmentRuleModel, TOTAL_WEIGHT,
};
use crate::ids::Uuid;
use crate::keyset::{ascending, members_determine_the_order, KeySet};
use crate::text::{
    copy_maybe, decimal, decimal_text, entries, entries_of, join, joined, maybe,
    split_has_a_piece, split_on, texts, trimmed,
};
use crate::web::api;
use crate::web::api::models::{Environment, Segment, SegmentWithUsage};
use crate::web::api::{
    environment_path, loaded, resource_path, ApiError, Body, Call, Load, Method, NewSegment,
    SegmentBody,
};
use crate::web::pages::conditions::{
    add_condition, conditions_edited, described, description_from, edit_condition,
    remove_condition, ConditionEdit,
};
use crate::web::pages::forms::KeyForm;
use crate::web::pages::{choose_environment, default_environment, Next};
use crate::web::toast::Notice;

verus! {

// ------------------------------------------------------------------------- lists

/// The keys of a set, one per line.
pub fn to_lines(keys: &KeySet) -> (text: String)
    ensures
        text@ == joined(keys@, "\n"@),
{
    join(keys.list(), "\n")
}

/// The keys in a text: separated by newlines or commas, so that a pasted column
/// and a typed list both work.
pub open spec fn keys_in(raw: Seq<char>) -> Seq<Seq<char>> {
    entries_of(split_on(raw, '\n', ','))
}

/// The set of the keys in a text.
pub fn from_lines(raw: &str) -> (keys: KeySet)
    ensures
        ascending(keys@),
        forall|k: Seq<char>| keys@.contains(k) <==> keys_in(raw@).contains(k),
{
    KeySet::of(&entries(raw, '\n', ','))
}

/// Whether a key survives being written into a list: it is not empty, has no
/// space around it, and holds no separator.
pub open spec fn is_listable(key: Seq<char>) -> bool {
    &&& key.len() > 0
    &&& trimmed(key) == key
    &&& forall|i: int| 0 <= i < key.len() ==> #[trigger] key[i] != '\n' && key[i] != ','
}

/// More text without separators goes to the last piece.
proof fn pieces_grow(text: Seq<char>, more: Seq<char>)
    requires
        forall|i: int| 0 <= i < more.len() ==> #[trigger] more[i] != '\n' && more[i] != ',',
    ensures
        split_on(text + more, '\n', ',') == split_on(text, '\n', ',').drop_last().push(
            split_on(text, '\n', ',').last() + more,
        ),
    decreases more.len(),
{
    split_has_a_piece(text, '\n', ',');
    let pieces = split_on(text, '\n', ',');
    if more.len() == 0 {
        assert(text + more =~= text);
        assert(pieces.last() + more =~= pieces.last());
        assert(pieces.drop_last().push(pieces.last()) =~= pieces);
    } else {
        let shorter = more.drop_last();
        pieces_grow(text, shorter);
        assert((text + more).drop_last() =~= text + shorter);
        assert((text + more).last() == more.last());
        let grown = split_on(text + shorter, '\n', ',');
        assert(grown.drop_last() =~= pieces.drop_last());
        assert(grown.last() == pieces.last() + shorter);
        assert((pieces.last() + shorter).push(more.last()) =~= pieces.last() + more);
    }
}

/// What is joined by newlines is split into the same pieces.
proof fn joining_then_splitting(keys: Seq<Seq<char>>)
    requires
        keys.len() > 0,
        forall|i: int| 0 <= i < keys.len() ==> is_listable(#[trigger] keys[i]),
    ensures
        split_on(joined(keys, "\n"@), '\n', ',') == keys,
    decreases keys.len(),
{
    reveal_strlit("\n");
    let none = Seq::<char>::empty();
    let last = keys.last();
    assert(is_listable(keys[keys.len() - 1]));
    if keys.len() == 1 {
        pieces_grow(none, last);
        assert(none + last =~= last);
        assert(split_on(none, '\n', ',') =~= seq![none]);
        assert(seq![none].drop_last().push(none + last) =~= keys);
    } else {
        let earlier = keys.drop_last();
        assert forall|i: int| 0 <= i < earlier.len() implies is_listable(#[trigger] earlier[i]) by {
            assert(earlier[i] == keys[i]);
        }
        joining_then_splitting(earlier);
        let front = joined(earlier, "\n"@);
        let ended = front + "\n"@;
        assert(ended =~= front.push('\n'));
        assert(ended.drop_last() =~= front);
        assert(split_on(ended, '\n', ',') == earlier.push(none));
        pieces_grow(ended, last);
        assert(earlier.push(none).drop_last() =~= earlier);
        assert(none + last =~= last);
        assert(earlier.push(last) =~= keys);
    }
}

proof fn listable_entries_stay(keys: Seq<Seq<char>>)
    requires
        forall|i: int| 0 <= i < keys.len() ==> is_listable(#[trigger] keys[i]),
    ensures
        entries_of(keys) == keys,
    decreases keys.len(),
{
    if keys.len() > 0 {
        let earlier = keys.drop_last();
        assert forall|i: int| 0 <= i < earlier.len() implies is_listable(#[trigger] earlier[i]) by {
            assert(earlier[i] == keys[i]);
        }
        listable_entries_stay(earlier);
        assert(is_listable(keys[keys.len() - 1]));
        assert(earlier.push(keys.last()) =~= keys);
    } else {
        assert(entries_of(keys) =~= keys);
    }
}

/// Opening a segment and saving it unchanged keeps its lists: the keys written
/// one per line are read back as the same keys. A key that holds a separator, or
/// space at its ends, cannot be told apart that way, and is left out.
pub proof fn lists_round_trip(keys: Seq<Seq<char>>, read: Seq<Seq<char>>)
    requires
        ascending(keys),
        forall|i: int| 0 <= i < keys.len() ==> is_listable(#[trigger] keys[i]),
        ascending(read),
        forall|k: Seq<char>| read.contains(k) <==> keys_in(joined(keys, "\n"@)).contains(k),
    ensures
        read == keys,
{
    if keys.len() == 0 {
        let none = Seq::<char>::empty();
        assert(joined(keys, "\n"@) =~= none);
        assert(split_on(none, '\n', ',') =~= seq![none]);
        assert(seq![none].drop_last() =~= Seq::empty());
        assert(trimmed(none).len() == 0);
        assert(entries_of(Seq::<Seq<char>>::empty()) =~= Seq::empty());
        assert(entries_of(seq![none]) =~= Seq::empty());
        assert(keys_in(joined(keys, "\n"@)) =~= keys);
    } else {
        joining_then_splitting(keys);
        listable_entries_stay(keys);
    }
    members_determine_the_order(read, keys);
}

// ------------------------------------------------------------------------- draft

/// A segment being edited. The two lists are text: whoever pastes a column of
/// keys should not have to add commas.
#[derive(Debug)]
pub struct Draft {
    pub key: String,
    pub name: String,
    pub included: String,
    pub excluded: String,
    pub rules: Vec<SegmentRule>,
    pub version: i64,
    pub referenced_by: Vec<String>,
}

pub struct DraftModel {
    pub key: Seq<char>,
    pub name: Seq<char>,
    pub included: Seq<char>,
    pub excluded: Seq<char>,
    pub rules: Seq<SegmentRuleModel>,
    pub version: i64,
    pub referenced_by: Seq<Seq<char>>,
}

impl View for Draft {
    type V = DraftModel;

    open spec fn view(&self) -> DraftModel {
        DraftModel {
            key: self.key@,
            name: self.name@,
            included: self.included@,
            excluded: self.excluded@,
            rules: segment_rule_models(self.rules@),
            version: self.version,
            referenced_by: texts(self.referenced_by@),
        }
    }
}

/// What is edited of a segment.
pub open spec fn draft_of(segment: Segment, referenced_by: Seq<Seq<char>>) -> DraftModel {
    DraftModel {
        key: segment.key@,
        name: segment.name@,
        included: joined(segment.included@, "\n"@),
        excluded: joined(segment.excluded@, "\n"@),
        rules: segment_rule_models(segment.rules@),
        version: segment.version,
        referenced_by,
    }
}

/// A list of rules after a change to one of them; a position that is not there
/// changes nothing.
pub open spec fn rule_changed(
    rules: Seq<SegmentRuleModel>,
    index: int,
    rule: SegmentRuleModel,
) -> Seq<SegmentRuleModel> {
    if 0 <= index < rules.len() {
        rules.update(index, rule)
    } else {
        rules
    }
}

/// The rule a new one starts out as.
pub open spec fn new_rule(id: Uuid) -> SegmentRuleModel {
    SegmentRuleModel {
        id,
        description: None,
        conditions: seq![is_text("plan"@, "pro"@)],
        rollout: None,
    }
}

/// A rollout after a share was typed: none where everyone is admitted, and
/// otherwise bucketed as before.
pub open spec fn rolled_out(rollout: Option<RolloutModel>, share: Option<u32>) -> Option<
    RolloutModel,
> {
    match share {
        Some(percentage) => Some(
            RolloutModel {
                percentage,
                bucket_by: match rollout {
                    Some(before) => before.bucket_by,
                    None => None,
                },
            },
        ),
        None => None,
    }
}

impl Draft {
    /// What is edited of a segment.
    pub fn from(segment: &Segment, referenced_by: Vec<String>) -> (draft: Draft)
        ensures
            draft@ == draft_of(*segment, texts(referenced_by@)),
    {
        Draft {
            key: segment.key.clone(),
            name: segment.name.clone(),
            included: to_lines(&segment.included),
            excluded: to_lines(&segment.excluded),
            rules: copy_segment_rules(&segment.rules),
            version: segment.version,
            referenced_by,
        }
    }

    /// Adds a rule.
    pub fn add_rule(&mut self, id: Uuid)
        ensures
            final(self)@ == (DraftModel {
                rules: old(self)@.rules.push(new_rule(id)),
                ..old(self)@
            }),
    {
        let ghost before = self@.rules;
        let mut conditions: Vec<Condition> = Vec::new();
        conditions.push(Condition::is_text("plan", "pro"));
        assert(condition_models(conditions@) =~= seq![is_text("plan"@, "pro"@)]);
        self.rules.push(SegmentRule::new(id, conditions));
        assert(self@.rules =~= before.push(new_rule(id)));
    }

    /// Removes a rule.
    pub fn remove_rule(&mut self, index: usize)
        requires
            index < old(self).rules@.len(),
        ensures
            final(self)@ == (DraftModel {
                rules: old(self)@.rules.remove(index as int),
                ..old(self)@
            }),
    {
        let ghost before = self@.rules;
        self.rules.remove(index);
        assert(self@.rules =~= before.remove(index as int));
    }

    /// Describes a rule.
    pub fn describe_rule(&mut self, index: usize, text: &str)
        ensures
            final(self)@ == (DraftModel {
                rules: rule_changed(
                    old(self)@.rules,
                    index as int,
                    SegmentRuleModel {
                        description: described(text@),
                        ..old(self)@.rules[index as int]
                    },
                ),
                ..old(self)@
            }),
    {
        if index < self.rules.len() {
            let ghost before = self@.rules;
            let rule = &mut self.rules[index];
            rule.description = description_from(text);
            assert(self@.rules =~= before.update(
                index as int,
                SegmentRuleModel { description: described(text@), ..before[index as int] },
            ));
        }
    }

    /// Sets the share of matching contexts that a rule admits; nothing stands for
    /// everyone.
    pub fn set_rollout(&mut self, index: usize, share: Option<u32>)
        ensures
            final(self)@ == (DraftModel {
                rules: rule_changed(
                    old(self)@.rules,
                    index as int,
                    SegmentRuleModel {
                        rollout: rolled_out(old(self)@.rules[index as int].rollout, share),
                        ..old(self)@.rules[index as int]
                    },
                ),
                ..old(self)@
            }),
    {
        if index < self.rules.len() {
            let ghost before = self@.rules;
            let bucket_by: Option<String> = match &self.rules[index].rollout {
                Some(rollout) => copy_maybe(&rollout.bucket_by),
                None => None,
            };
            let rule = &mut self.rules[index];
            rule.rollout =
            match share {
                Some(percentage) => Some(SegmentRollout { percentage, bucket_by }),
                None => None,
            };
            assert(self@.rules =~= before.update(
                index as int,
                SegmentRuleModel {
                    rollout: rolled_out(before[index as int].rollout, share),
                    ..before[index as int]
                },
            ));
        }
    }

    /// Adds a condition to a rule.
    pub fn add_condition(&mut self, index: usize)
        ensures
            final(self)@ == (DraftModel {
                rules: rule_changed(
                    old(self)@.rules,
                    index as int,
                    SegmentRuleModel {
                        conditions: old(self)@.rules[index as int].conditions.push(
                            is_text("country"@, "ES"@),
                        ),
                        ..old(self)@.rules[index as int]
                    },
                ),
                ..old(self)@
            }),
    {
        if index < self.rules.len() {
            let ghost before = self@.rules;
            let rule = &mut self.rules[index];
            add_condition(&mut rule.conditions);
            assert(self@.rules =~= before.update(
                index as int,
                SegmentRuleModel {
                    conditions: before[index as int].conditions.push(is_text("country"@, "ES"@)),
                    ..before[index as int]
                },
            ));
        }
    }

    /// Changes a condition of a rule.
    pub fn edit_condition(&mut self, index: usize, position: usize, edit: ConditionEdit)
        ensures
            final(self)@ == (DraftModel {
                rules: rule_changed(
                    old(self)@.rules,
                    index as int,
                    SegmentRuleModel {
                        conditions: conditions_edited(
                            old(self)@.rules[index as int].conditions,
                            position as int,
                            edit,
                        ),
                        ..old(self)@.rules[index as int]
                    },
                ),
                ..old(self)@
            }),
    {
        if index < self.rules.len() {
            let ghost before = self@.rules;
            let rule = &mut self.rules[index];
            edit_condition(&mut rule.conditions, position, edit);
            assert(self@.rules =~= before.update(
                index as int,
                SegmentRuleModel {
                    conditions: conditions_edited(
                        before[index as int].conditions,
                        position as int,
                        edit,
                    ),
                    ..before[index as int]
                },
            ));
        }
    }

    /// Removes a condition of a rule.
    pub fn remove_condition(&mut self, index: usize, position: usize)
        requires
            index < old(self).rules@.len() ==> position < old(
                self,
            ).rules@[index as int].conditions@.len(),
        ensures
            final(self)@ == (DraftModel {
                rules: rule_changed(
                    old(self)@.rules,
                    index as int,
                    SegmentRuleModel {
                        conditions: old(self)@.rules[index as int].conditions.remove(
                            position as int,
                        ),
                        ..old(self)@.rules[index as int]
                    },
                ),
                ..old(self)@
            }),
    {
        if index < self.rules.len() {
            let ghost before = self@.rules;
            let rule = &mut self.rules[index];
            remove_condition(&mut rule.conditions, position);
            assert(self@.rules =~= before.update(
                index as int,
                SegmentRuleModel {
                    conditions: before[index as int].conditions.remove(position as int),
                    ..before[index as int]
                },
            ));
        }
    }

    /// Whether deleting is out of the question: a flag rule references the
    /// segment.
    pub fn is_blocked(&self) -> (yes: bool)
        ensures
            yes == (self.referenced_by@.len() > 0),
    {
        self.referenced_by.len() > 0
    }

    /// The flags that reference the segment.
    pub fn used_by(&self) -> (text: String)
        ensures
            text@ == joined(self@.referenced_by, ", "@),
    {
        join(&self.referenced_by, ", ")
    }
}

/// The share a rule is shown to admit: everyone where it has no rollout.
pub fn shown_share(rule: &SegmentRule) -> (weight: u32)
    ensures
        weight == (match rule.rollout {
            Some(rollout) => rollout.percentage,
            None => TOTAL_WEIGHT,
        }),
{
    match &rule.rollout {
        Some(rollout) => rollout.percentage,
        None => TOTAL_WEIGHT,
    }
}

/// What is said of a rule's rollout.
pub fn rollout_hint(rule: &SegmentRule) -> (text: &'static str)
    ensures
        text@ == (if rule.rollout is Some {
            "Bucketed on the segment, so the cohort holds still across every flag."@
        } else {
            "100 % \u{2014} everyone the conditions match."@
        }),
{
    if rule.rollout.is_some() {
        "Bucketed on the segment, so the cohort holds still across every flag."
    } else {
        "100 % \u{2014} everyone the conditions match."
    }
}

/// How a context gets into a segment, in parts.
pub open spec fn membership_parts(included: nat, rules: nat, excluded: nat) -> Seq<Seq<char>> {
    let none = Seq::<Seq<char>>::empty();
    let first = if included > 0 {
        none.push(decimal(included) + " always in"@)
    } else {
        none
    };
    let second = if rules > 0 {
        first.push(
            decimal(rules) + " rule"@ + (if rules == 1 {
                ""@
            } else {
                "s"@
            }),
        )
    } else {
        first
    };
    if excluded > 0 {
        second.push(decimal(excluded) + " excluded"@)
    } else {
        second
    }
}

fn numbered(count: usize, words: &str) -> (text: String)
    ensures
        text@ == decimal(count as nat) + words@,
{
    let mut text = decimal_text(count as u64);
    text.append(words);
    text
}

/// One line on how a context gets into a segment.
pub fn describe(segment: &Segment) -> (text: String)
    ensures
        text@ == joined(
            membership_parts(
                segment.included@.len(),
                segment.rules@.len(),
                segment.excluded@.len(),
            ),
            " \u{b7} "@,
        ),
{
    let ghost wanted = membership_parts(
        segment.included@.len(),
        segment.rules@.len(),
        segment.excluded@.len(),
    );
    let mut parts: Vec<String> = Vec::new();
    if !segment.included.is_empty() {
        parts.push(numbered(segment.included.len(), " always in"));
    }
    if segment.rules.len() > 0 {
        let mut part = numbered(segment.rules.len(), " rule");
        if segment.rules.len() == 1 {
            part.append("");
        } else {
            part.append("s");
        }
        parts.push(part);
    }
    if !segment.excluded.is_empty() {
        parts.push(numbered(segment.excluded.len(), " excluded"));
    }
    assert(texts(parts@) =~= wanted);
    join(&parts, " \u{b7} ")
}

// -------------------------------------------------------------------------- page

/// The page of the segments.
#[derive(Debug)]
pub struct Segments {
    pub environments: Load<Vec<Environment>>,
    pub selected: Option<String>,
    pub segments: Load<Vec<Segment>>,
    pub draft: Option<Draft>,
    pub creating: bool,
    pub saving: bool,
}

/// Whether a request rewrites a segment with a draft, guarded by the version the
/// draft was read at.
pub open spec fn writes_draft(
    call: Call<'_>,
    token: Seq<char>,
    project: Seq<char>,
    environment: Seq<char>,
    draft: DraftModel,
) -> bool {
    &&& call.is(
        Method::Put,
        resource_path(project, environment, "/segments"@, draft.key),
        Some(token),
    )
    &&& call.body matches Body::Membership(body)
    &&& body.name@ == draft.name
    &&& ascending(body.included@)
    &&& forall|k: Seq<char>| body.included@.contains(k) <==> keys_in(draft.included).contains(k)
    &&& ascending(body.excluded@)
    &&& forall|k: Seq<char>| body.excluded@.contains(k) <==> keys_in(draft.excluded).contains(k)
    &&& segment_rule_models(body.rules@) == draft.rules
    &&& body.expected_version == draft.version
}

impl Segments {
    pub fn new() -> (page: Segments)
        ensures
            page.environments is Loading,
            page.selected is None,
            page.segments is Loading,
            page.draft is None,
            !page.creating,
            !page.saving,
    {
        Segments {
            environments: Load::Loading,
            selected: None,
            segments: Load::Loading,
            draft: None,
            creating: false,
            saving: false,
        }
    }

    /// What the server said of the environments.
    pub fn environments_loaded(&mut self, answer: Result<Vec<Environment>, ApiError>)
        ensures
            *final(self) == (Segments {
                environments: loaded(answer),
                selected: final(self).selected,
                ..*old(self)
            }),
            match answer {
                Ok(list) => maybe(final(self).selected) == default_environment(list@),
                Err(_) => final(self).selected == old(self).selected,
            },
    {
        if let Ok(list) = &answer {
            self.selected = choose_environment(list);
        }
        self.environments = Load::from(answer);
    }

    /// Goes to another environment.
    pub fn select(&mut self, key: String)
        ensures
            *final(self) == (Segments { selected: Some(key), ..*old(self) }),
    {
        self.selected = Some(key);
    }

    /// Asks for the segments of the selected environment.
    pub fn load_segments<'a>(&mut self, token: Option<&'a str>, project: &str) -> (call: Option<
        Call<'a>,
    >)
        ensures
            match (token, old(self).selected) {
                (Some(token), Some(environment)) => {
                    &&& *final(self) == (Segments { segments: Load::Loading, ..*old(self) })
                    &&& call matches Some(call) && call.is(
                        Method::Get,
                        environment_path(project@, environment@, "/segments"@),
                        Some(token@),
                    ) && call.body == Body::Nothing
                },
                _ => *final(self) == *old(self) && call is None,
            },
    {
        match (token, &self.selected) {
            (Some(token), Some(environment)) => {
                let call = api::list_segments(token, project, environment.as_str());
                self.segments = Load::Loading;
                Some(call)
            },
            _ => None,
        }
    }

    /// The environment changed: what was being edited belongs to the other one.
    pub fn environment_changed<'a>(&mut self, token: Option<&'a str>, project: &str) -> (call:
        Option<Call<'a>>)
        ensures
            match (token, old(self).selected) {
                (Some(token), Some(environment)) => {
                    &&& *final(self) == (Segments {
                        draft: None,
                        segments: Load::Loading,
                        ..*old(self)
                    })
                    &&& call matches Some(call) && call.is(
                        Method::Get,
                        environment_path(project@, environment@, "/segments"@),
                        Some(token@),
                    ) && call.body == Body::Nothing
                },
                _ => *final(self) == (Segments { draft: None, ..*old(self) }) && call is None,
            },
    {
        self.draft = None;
        self.load_segments(token, project)
    }

    /// What the server said of the segments.
    pub fn segments_loaded(&mut self, answer: Result<Vec<Segment>, ApiError>)
        ensures
            *final(self) == (Segments { segments: loaded(answer), ..*old(self) }),
    {
        self.segments = Load::from(answer);
    }

    /// Opens a segment. It is fetched again, because the list does not say which
    /// flags reference it.
    pub fn open<'a>(&self, token: Option<&'a str>, project: &str, key: &str) -> (call: Option<
        Call<'a>,
    >)
        ensures
            match (token, self.selected) {
                (Some(token), Some(environment)) => call matches Some(call) && call.is(
                    Method::Get,
                    resource_path(project@, environment@, "/segments"@, key@),
                    Some(token@),
                ) && call.body == Body::Nothing,
                _ => call is None,
            },
    {
        match (token, &self.selected) {
            (Some(token), Some(environment)) => Some(
                api::get_segment(token, project, environment.as_str(), key),
            ),
            _ => None,
        }
    }

    /// What the server said of the segment to open.
    pub fn opened(&mut self, answer: Result<SegmentWithUsage, ApiError>) -> (notice: Option<Notice>)
        ensures
            match answer {
                Ok(found) => {
                    &&& *final(self) == (Segments { draft: final(self).draft, ..*old(self) })
                    &&& final(self).draft matches Some(draft) && draft@ == draft_of(
                        found.segment,
                        texts(found.referenced_by@),
                    )
                    &&& notice is None
                },
                Err(error) => {
                    &&& *final(self) == *old(self)
                    &&& notice matches Some(notice) && notice.fails(
                        "Could not open the segment"@,
                        error,
                    )
                },
            },
    {
        match answer {
            Ok(found) => {
                self.draft = Some(Draft::from(&found.segment, found.referenced_by));
                None
            },
            Err(error) => Some(Notice::error("Could not open the segment", &error)),
        }
    }

    /// Stops editing.
    pub fn close(&mut self)
        ensures
            *final(self) == (Segments { draft: None, ..*old(self) }),
    {
        self.draft = None;
    }

    /// Saves the draft, unless it is being saved already.
    pub fn save<'a>(&mut self, token: Option<&'a str>, project: &str) -> (call: Option<Call<'a>>)
        ensures
            match (token, old(self).selected, old(self).draft) {
                (Some(token), Some(environment), Some(draft)) => if old(self).saving {
                    *final(self) == *old(self) && call is None
                } else {
                    &&& *final(self) == (Segments { saving: true, ..*old(self) })
                    &&& call matches Some(call) && writes_draft(
                        call,
                        token@,
                        project@,
                        environment@,
                        draft@,
                    )
                },
                _ => *final(self) == *old(self) && call is None,
            },
    {
        let call = match (token, &self.selected, &self.draft) {
            (Some(token), Some(environment), Some(draft)) => if self.saving {
                None
            } else {
                Some(
                    api::put_segment(
                        token,
                        project,
                        environment.as_str(),
                        draft.key.as_str(),
                        SegmentBody {
                            name: draft.name.clone(),
                            included: from_lines(draft.included.as_str()),
                            excluded: from_lines(draft.excluded.as_str()),
                            rules: copy_segment_rules(&draft.rules),
                            expected_version: draft.version,
                        },
                    ),
                )
            },
            _ => None,
        };
        if call.is_some() {
            self.saving = true;
        }
        call
    }

    /// What the server said of a save of the segment `key`, which `referenced_by`
    /// referenced when it was sent. A lost race opens the segment again.
    pub fn saved(
        &mut self,
        answer: Result<Segment, ApiError>,
        key: &str,
        referenced_by: Vec<String>,
    ) -> (after: (Notice, Next))
        ensures
            *final(self) == (Segments {
                saving: false,
                draft: final(self).draft,
                ..*old(self)
            }),
            match answer {
                Ok(segment) => {
                    &&& final(self).draft matches Some(draft) && draft@ == draft_of(
                        segment,
                        texts(referenced_by@),
                    )
                    &&& after.0.succeeds(
                        "Segment saved \u{2014} every flag that references it follows"@,
                    )
                    &&& after.1 is Reload
                },
                Err(error) => {
                    &&& final(self).draft == old(self).draft
                    &&& if error.status == 409 {
                        &&& after.0.fails(
                            "Someone else changed this segment \u{2014} reopen it"@,
                            error,
                        )
                        &&& after.1 matches Next::Reopen(again) && again@ == key@
                    } else {
                        &&& after.0.fails("Could not save the segment"@, error)
                        &&& after.1 is Stay
                    }
                },
            },
    {
        self.saving = false;
        match answer {
            Ok(segment) => {
                self.draft = Some(Draft::from(&segment, referenced_by));
                (
                    Notice::success(
                        "Segment saved \u{2014} every flag that references it follows".to_owned(),
                    ),
                    Next::Reload,
                )
            },
            Err(error) => if error.is_conflict() {
                (
                    Notice::error(
                        "Someone else changed this segment \u{2014} reopen it",
                        &error,
                    ),
                    Next::Reopen(key.to_owned()),
                )
            } else {
                (Notice::error("Could not save the segment", &error), Next::Stay)
            },
        }
    }

    /// Deletes a segment.
    pub fn delete<'a>(&self, token: Option<&'a str>, project: &str, key: &str) -> (call: Option<
        Call<'a>,
    >)
        ensures
            match (token, self.selected) {
                (Some(token), Some(environment)) => call matches Some(call) && call.is(
                    Method::Delete,
                    resource_path(project@, environment@, "/segments"@, key@),
                    Some(token@),
                ) && call.body == Body::Nothing,
                _ => call is None,
            },
    {
        match (token, &self.selected) {
            (Some(token), Some(environment)) => Some(
                api::delete_segment(token, project, environment.as_str(), key),
            ),
            _ => None,
        }
    }

    /// What the server said of a deletion.
    pub fn deleted(&mut self, answer: Result<(), ApiError>) -> (after: (Notice, Next))
        ensures
            match answer {
                Ok(_) => {
                    &&& *final(self) == (Segments { draft: None, ..*old(self) })
                    &&& after.0.succeeds("Segment deleted"@)
                    &&& after.1 is Reload
                },
                Err(error) => {
                    &&& *final(self) == *old(self)
                    &&& after.0.fails("Could not delete the segment"@, error)
                    &&& after.1 is Stay
                },
            },
    {
        match answer {
            Ok(_) => {
                self.draft = None;
                (Notice::success("Segment deleted".to_owned()), Next::Reload)
            },
            Err(error) => (Notice::error("Could not delete the segment", &error), Next::Stay),
        }
    }

    /// A segment was created: the dialog closes, the list is loaded again, and
    /// the segment is opened.
    pub fn created(&mut self, key: String) -> (next: Next)
        ensures
            *final(self) == (Segments { creating: false, ..*old(self) }),
            next == Next::ReloadThenOpen(key),
    {
        self.creating = false;
        Next::ReloadThenOpen(key)
    }
}

// ----------------------------------------------------------------------- creation

/// Sends the form of a new segment. It starts out empty.
pub fn create_segment<'a>(
    form: &'a mut KeyForm,
    token: Option<&'a str>,
    project: &str,
    environment: &str,
) -> (call: Option<Call<'a>>)
    ensures
        *final(form) == (KeyForm { busy: true, ..*old(form) }),
        match (old(form).busy, token) {
            (false, Some(token)) => {
                &&& call matches Some(call)
                &&& call.is(
                    Method::Post,
                    environment_path(project@, environment@, "/segments"@),
                    Some(token@),
                )
                &&& call.body matches Body::Segment(body)
                &&& body.key@ == old(form).key@
                &&& body.name@ == old(form).name@
                &&& body.description is None
            },
            _ => call is None,
        },
{
    if !form.begin() {
        return None;
    }
    match token {
        Some(token) => Some(
            api::create_segment(
                token,
                project,
                environment,
                NewSegment {
                    key: form.key.as_str(),
                    name: form.name.as_str(),
                    description: None,
                },
            ),
        ),
        None => None,
    }
}

/// What the server said: the key of the new segment, or what went wrong.
pub fn segment_answered(form: &mut KeyForm, answer: Result<Segment, ApiError>) -> (outcome: Result<
    String,
    Notice,
>)
    ensures
        *final(form) == (KeyForm { busy: false, ..*old(form) }),
        match answer {
            Ok(segment) => outcome == Ok::<String, Notice>(segment.key),
            Err(error) => outcome matches Err(notice) && notice.fails(
                "Could not create the segment"@,
                error,
            ),
        },
{
    form.finish();
    match answer {
        Ok(segment) => Ok(segment.key),
        Err(error) => Err(Notice::error("Could not create the segment", &error)),
    }
}

// ------------------------------------------------------------------- the meaning

/// Two drafts of segments are the same exactly where they are part by part, rule
/// by rule.
pub proof fn drafts_are_told_apart(a: Draft, b: Draft)
    ensures
        a@ == b@ <==> {
            &&& a.key@ == b.key@
            &&& a.name@ == b.name@
            &&& a.included@ == b.included@
            &&& a.excluded@ == b.excluded@
            &&& a.rules@.len() == b.rules@.len()
            &&& forall|i: int| 0 <= i < a.rules@.len() ==> (#[trigger] a.rules@[i])@ == b.rules@[i]@
            &&& a.version == b.version
            &&& a.referenced_by@.len() == b.referenced_by@.len()
            &&& forall|i: int|
                0 <= i < a.referenced_by@.len() ==> (#[trigger] a.referenced_by@[i])@
                    == b.referenced_by@[i]@
        },
{
    let x = segment_rule_models(a.rules@);
    let y = segment_rule_models(b.rules@);
    let p = texts(a.referenced_by@);
    let q = texts(b.referenced_by@);
    assert(x.len() == a.rules@.len() && y.len() == b.rules@.len());
    assert(p.len() == a.referenced_by@.len() && q.len() == b.referenced_by@.len());
    if a@ == b@ {
        assert forall|i: int| 0 <= i < a.rules@.len() implies (#[trigger] a.rules@[i])@
            == b.rules@[i]@ by {
            assert(x[i] == y[i]);
        }
        assert forall|i: int| 0 <= i < a.referenced_by@.len() implies (
        #[trigger] a.referenced_by@[i])@ == b.referenced_by@[i]@ by {
            assert(p[i] == q[i]);
        }
    }
    if x.len() == y.len() && forall|i: int|
        0 <= i < a.rules@.len() ==> (#[trigger] a.rules@[i])@ == b.rules@[i]@ {
        assert(x =~= y);
    }
    if p.len() == q.len() && forall|i: int|
        0 <= i < a.referenced_by@.len() ==> (#[trigger] a.referenced_by@[i])@
            == b.referenced_by@[i]@ {
        assert(p =~= q);
    }
}

/// What is edited of a segment is the segment, part by part: who is included, one
/// per line, apart from who is excluded, and the version it was read at.
pub proof fn a_draft_is_its_segment(draft: Draft, segment: Segment, referenced_by: Seq<Seq<char>>)
    requires
        draft@ == draft_of(segment, referenced_by),
    ensures
        draft.key@ == segment.key@,
        draft.name@ == segment.name@,
        draft.included@ == joined(segment.included@, "\n"@),
        draft.excluded@ == joined(segment.excluded@, "\n"@),
        draft.rules@.len() == segment.rules@.len(),
        forall|i: int|
            0 <= i < draft.rules@.len() ==> (#[trigger] draft.rules@[i])@ == segment.rules@[i]@,
        draft.version == segment.version,
        draft.referenced_by@.len() == referenced_by.len(),
        forall|i: int|
            0 <= i < referenced_by.len() ==> (#[trigger] draft.referenced_by@[i])@
                == referenced_by[i],
{
    let x = segment_rule_models(draft.rules@);
    let y = segment_rule_models(segment.rules@);
    assert(x.len() == draft.rules@.len() && y.len() == segment.rules@.len());
    assert forall|i: int| 0 <= i < draft.rules@.len() implies (#[trigger] draft.rules@[i])@
        == segment.rules@[i]@ by {
        assert(x[i] == y[i]);
    }
    let p = texts(draft.referenced_by@);
    assert(p.len() == draft.referenced_by@.len());
    assert forall|i: int| 0 <= i < referenced_by.len() implies (
    #[trigger] draft.referenced_by@[i])@ == referenced_by[i] by {
        assert(p[i] == referenced_by[i]);
    }
}

/// What is sent to be saved is the draft, part by part: the keys of its two lists,
/// each under its own name, its rules, and the version it was read at.
pub proof fn what_is_sent_is_the_draft(
    call: Call<'_>,
    token: Seq<char>,
    project: Seq<char>,
    environment: Seq<char>,
    draft: Draft,
)
    requires
        writes_draft(call, token, project, environment, draft@),
    ensures
        call.method == Method::Put,
        call.body matches Body::Membership(body) && {
            &&& body.name@ == draft.name@
            &&& ascending(body.included@)
            &&& ascending(body.excluded@)
            &&& forall|k: Seq<char>|
                body.included@.contains(k) <==> entries_of(
                    split_on(draft.included@, '\n', ','),
                ).contains(k)
            &&& forall|k: Seq<char>|
                body.excluded@.contains(k) <==> entries_of(
                    split_on(draft.excluded@, '\n', ','),
                ).contains(k)
            &&& body.rules@.len() == draft.rules@.len()
            &&& forall|i: int|
                0 <= i < draft.rules@.len() ==> (#[trigger] body.rules@[i])@ == draft.rules@[i]@
            &&& body.expected_version == draft.version
        },
{
    let sent = call.body->Membership_0;
    let x = segment_rule_models(sent.rules@);
    let y = segment_rule_models(draft.rules@);
    assert(x.len() == sent.rules@.len() && y.len() == draft.rules@.len());
    assert forall|i: int| 0 <= i < draft.rules@.len() implies (#[trigger] sent.rules@[i])@
        == draft.rules@[i]@ by {
        assert(x[i] == y[i]);
    }
}

/// A change to one rule touches that rule and no other, and adds and drops none.
pub proof fn a_change_touches_one_rule(
    rules: Seq<SegmentRuleModel>,
    index: int,
    rule: SegmentRuleModel,
)
    ensures
        rule_changed(rules, index, rule).len() == rules.len(),
        forall|i: int|
            0 <= i < rules.len() ==> #[trigger] rule_changed(rules, index, rule)[i] == (if i
                == index {
                rule
            } else {
                rules[i]
            }),
{
}

/// A new rule admits everyone on the pro plan.
pub proof fn a_new_rule_admits_everyone(id: Uuid)
    ensures
        new_rule(id).id == id,
        new_rule(id).description is None,
        new_rule(id).conditions.len() == 1,
        new_rule(id).conditions[0] == is_text("plan"@, "pro"@),
        new_rule(id).rollout is None,
{
}

/// Typing a share sets that share and keeps what it is bucketed by; clearing it
/// admits everyone.
pub proof fn a_typed_share_keeps_the_bucketing(rollout: Option<RolloutModel>, share: Option<u32>)
    ensures
        rolled_out(rollout, share) is Some <==> share is Some,
        share matches Some(typed) ==> rolled_out(rollout, share)->0.percentage == typed,
        share is Some && rollout is Some ==> rolled_out(rollout, share)->0.bucket_by
            == rollout->0.bucket_by,
        share is Some && rollout is None ==> rolled_out(rollout, share)->0.bucket_by is None,
{
}

/// A segment is described by what it has, in order: those always in, the rules,
/// those excluded; what it has none of is not mentioned.
pub proof fn a_segment_is_described_by_what_it_has(included: nat, rules: nat, excluded: nat)
    ensures
        ({
            let parts = membership_parts(included, rules, excluded);
            let before: int = if included > 0 {
                1
            } else {
                0
            };
            let more: int = if rules > 0 {
                1
            } else {
                0
            };
            let last: int = if excluded > 0 {
                1
            } else {
                0
            };
            &&& parts.len() == before + more + last
            &&& included > 0 ==> parts[0] == decimal(included) + " always in"@
            &&& rules == 1 ==> parts[before] == decimal(1) + " rule"@ + ""@
            &&& rules > 1 ==> parts[before] == decimal(rules) + " rule"@ + "s"@
            &&& excluded > 0 ==> parts[before + more] == decimal(excluded) + " excluded"@
        }),
{
}

/// The keys in a text are its entries between newlines and commas.
pub proof fn keys_stand_between_newlines_and_commas(raw: Seq<char>)
    ensures
        keys_in(raw) == entries_of(split_on(raw, '\n', ',')),
{
}

} // verus!
