//! The audit trail.

use vstd::prelude::*;

use crate::ids::Uuid;
use crate::storage::models::AuditEntry;

verus! {

/// Maximum page size, so a client cannot ask for the whole history at once.
pub const MAX_PAGE_SIZE: i64 = 200;

/// How many entries a page holds when a client asks for `limit` of them: at
/// least one, and no more than the maximum.
pub open spec fn page_size(limit: i64) -> int {
    if limit < 1 {
        1
    } else if limit > MAX_PAGE_SIZE {
        MAX_PAGE_SIZE as int
    } else {
        limit as int
    }
}

/// How many entries a page holds when a client asks for `limit` of them.
pub fn page_limit(limit: i64) -> (size: i64)
    ensures
        size == page_size(limit),
        1 <= size <= MAX_PAGE_SIZE,
        limit < 1 ==> size == 1,
        1 <= limit <= 200 ==> size == limit,
        limit > 200 ==> size == 200,
{
    if limit < 1 {
        1
    } else if limit > MAX_PAGE_SIZE {
        MAX_PAGE_SIZE
    } else {
        limit
    }
}

// --------------------------------------------------------------------- paging

/// An entry of the trail and the organization it belongs to.
pub ghost struct Recorded {
    pub organization_id: Uuid,
    pub entry: AuditEntry,
}

/// Which entries a client asks for.
pub ghost struct Question {
    pub organization_id: Uuid,
    pub resource_type: Option<Seq<char>>,
    pub resource_id: Option<Seq<char>>,
}

impl Question {
    /// Whether an entry is one that is asked for.
    pub open spec fn covers(self, recorded: Recorded) -> bool {
        &&& recorded.organization_id == self.organization_id
        &&& self.resource_type matches Some(wanted) ==> recorded.entry.resource_type@ == wanted
        &&& self.resource_id matches Some(wanted) ==> recorded.entry.resource_id@ == wanted
    }
}

/// Whether an entry is one that is asked for and older than the cursor.
pub open spec fn answers(recorded: Recorded, question: Question, before_id: Option<i64>) -> bool {
    &&& question.covers(recorded)
    &&& before_id matches Some(id) ==> recorded.entry.id < id
}

/// Whether the entries of a trail are in the order they were recorded, each with
/// an identifier above those before it.
pub open spec fn in_order(log: Seq<Recorded>) -> bool {
    forall|i: int, j: int|
        0 <= i < j < log.len() ==> (#[trigger] log[i]).entry.id < (#[trigger] log[j]).entry.id
}

/// The entries of a trail that are asked for and older than the cursor, the
/// newest first.
pub open spec fn newest_first(
    log: Seq<Recorded>,
    question: Question,
    before_id: Option<i64>,
) -> Seq<AuditEntry>
    decreases log.len(),
{
    if log.len() == 0 {
        Seq::empty()
    } else {
        let older = newest_first(log.drop_last(), question, before_id);
        if answers(log.last(), question, before_id) {
            seq![log.last().entry] + older
        } else {
            older
        }
    }
}

/// A page of the trail: as many of the newest entries as it holds.
pub open spec fn page(
    log: Seq<Recorded>,
    question: Question,
    before_id: Option<i64>,
    limit: i64,
) -> Seq<AuditEntry> {
    let all = newest_first(log, question, before_id);
    if all.len() <= page_size(limit) {
        all
    } else {
        all.take(page_size(limit))
    }
}

/// What a client sees who asks page by page, each time for what is older than the
/// last entry seen, until a page is empty. `logs` is the trail at each call.
pub open spec fn visited(
    logs: Seq<Seq<Recorded>>,
    question: Question,
    before_id: Option<i64>,
    limit: i64,
) -> Seq<AuditEntry>
    decreases logs.len(),
{
    if logs.len() == 0 {
        Seq::empty()
    } else {
        let seen = page(logs[0], question, before_id, limit);
        if seen.len() == 0 {
            seen
        } else {
            seen + visited(logs.drop_first(), question, Some(seen.last().id), limit)
        }
    }
}

/// Whether a trail only grows from each call to the next.
pub open spec fn only_grows(logs: Seq<Seq<Recorded>>) -> bool {
    &&& forall|c: int| 0 <= c < logs.len() ==> in_order(#[trigger] logs[c])
    &&& forall|c: int, d: int|
        0 <= c < d < logs.len() ==> (#[trigger] logs[c]).is_prefix_of(#[trigger] logs[d])
}

/// A page holds at least one entry where any is left, never more than the
/// maximum, and nothing but entries of the organization that are asked for and
/// older than the cursor, the newest first.
pub proof fn a_page_holds_what_was_asked_for(
    log: Seq<Recorded>,
    question: Question,
    before_id: Option<i64>,
    limit: i64,
)
    requires
        in_order(log),
    ensures
        page(log, question, before_id, limit).len() <= MAX_PAGE_SIZE,
        newest_first(log, question, before_id).len() > 0 ==> page(
            log,
            question,
            before_id,
            limit,
        ).len() > 0,
        forall|i: int|
            0 <= i < page(log, question, before_id, limit).len() ==> exists|j: int|
                0 <= j < log.len() && answers(#[trigger] log[j], question, before_id)
                    && log[j].entry == #[trigger] page(log, question, before_id, limit)[i],
        forall|i: int, j: int|
            0 <= i < j < page(log, question, before_id, limit).len() ==> (#[trigger] page(
                log,
                question,
                before_id,
                limit,
            )[i]).id > (#[trigger] page(log, question, before_id, limit)[j]).id,
{
    let seen = page(log, question, before_id, limit);
    assert forall|i: int, j: int| 0 <= i < j < seen.len() implies (#[trigger] seen[i]).id > (
    #[trigger] seen[j]).id by {
        answers_descend(log, question, before_id, i, j);
    }
    assert forall|i: int| 0 <= i < seen.len() implies exists|j: int|
        0 <= j < log.len() && answers(#[trigger] log[j], question, before_id) && log[j].entry
            == #[trigger] seen[i] by {
        an_answer_is_recorded(log, question, before_id, i);
        assert(seen[i] == newest_first(log, question, before_id)[i]);
    }
}

/// Paging through the trail visits every entry that is asked for exactly once,
/// the newest first, however many are recorded in between: what was there at the
/// first call is seen, and nothing else. Every page moves on, so one call more
/// than there are entries is enough.
pub proof fn paging_visits_every_entry_once(
    logs: Seq<Seq<Recorded>>,
    question: Question,
    limit: i64,
)
    requires
        only_grows(logs),
        logs.len() > newest_first(logs[0], question, None).len(),
    ensures
        ({
            let seen = visited(logs, question, None, limit);
            &&& seen == newest_first(logs[0], question, None)
            &&& forall|i: int, j: int|
                0 <= i < j < seen.len() ==> (#[trigger] seen[i]).id > (#[trigger] seen[j]).id
            &&& forall|i: int|
                0 <= i < seen.len() ==> exists|j: int|
                    0 <= j < logs[0].len() && question.covers(#[trigger] logs[0][j])
                        && logs[0][j].entry == #[trigger] seen[i]
            &&& forall|j: int|
                0 <= j < logs[0].len() && question.covers(#[trigger] logs[0][j])
                    ==> seen.contains(logs[0][j].entry)
        }),
{
    let log = logs[0];
    let seen = visited(logs, question, None, limit);
    paging_goes_through(logs, question, None, limit);
    assert forall|i: int, j: int| 0 <= i < j < seen.len() implies (#[trigger] seen[i]).id > (
    #[trigger] seen[j]).id by {
        answers_descend(log, question, None, i, j);
    }
    assert forall|i: int| 0 <= i < seen.len() implies exists|j: int|
        0 <= j < log.len() && question.covers(#[trigger] log[j]) && log[j].entry
            == #[trigger] seen[i] by {
        an_answer_is_recorded(log, question, None, i);
        let j = choose|j: int|
            0 <= j < log.len() && answers(#[trigger] log[j], question, None) && log[j].entry
                == seen[i];
        assert(question.covers(log[j]));
    }
    assert forall|j: int|
        0 <= j < log.len() && question.covers(#[trigger] log[j]) implies seen.contains(
        log[j].entry,
    ) by {
        what_answers_is_there(log, question, None, j);
    }
}

proof fn paging_goes_through(
    logs: Seq<Seq<Recorded>>,
    question: Question,
    before_id: Option<i64>,
    limit: i64,
)
    requires
        only_grows(logs),
        logs.len() > newest_first(logs[0], question, before_id).len(),
    ensures
        visited(logs, question, before_id, limit) == newest_first(logs[0], question, before_id),
    decreases logs.len(),
{
    let all = newest_first(logs[0], question, before_id);
    let seen = page(logs[0], question, before_id, limit);
    if seen.len() == 0 {
        assert(all =~= seen);
    } else {
        let count = seen.len() as int;
        let last = seen.last().id;
        assert(seen =~= all.take(count));
        assert(last == all[count - 1].id);
        let later = logs.drop_first();
        assert(later[0] == logs[1]);
        assert(logs[0].is_prefix_of(logs[1]));
        assert(in_order(logs[0]) && in_order(logs[1]));
        the_cursor_skips(logs[0], question, before_id, count);
        an_answer_is_recorded(logs[0], question, before_id, count - 1);
        newer_entries_do_not_matter(logs[0], logs[1], question, last);
        assert forall|c: int| 0 <= c < later.len() implies in_order(#[trigger] later[c]) by {
            assert(later[c] == logs[c + 1]);
        }
        assert forall|c: int, d: int| 0 <= c < d < later.len() implies (
        #[trigger] later[c]).is_prefix_of(#[trigger] later[d]) by {
            assert(later[c] == logs[c + 1] && later[d] == logs[d + 1]);
        }
        paging_goes_through(later, question, Some(last), limit);
        assert(all.take(count) + all.skip(count) =~= all);
    }
}

/// What is asked for depends on which entries answer, and on nothing else of the
/// cursor.
proof fn cursors_that_agree(
    log: Seq<Recorded>,
    question: Question,
    one: Option<i64>,
    other: Option<i64>,
)
    requires
        forall|i: int|
            0 <= i < log.len() ==> answers(#[trigger] log[i], question, one) == answers(
                log[i],
                question,
                other,
            ),
    ensures
        newest_first(log, question, one) == newest_first(log, question, other),
    decreases log.len(),
{
    if log.len() > 0 {
        assert(log[log.len() - 1] == log.last());
        assert forall|i: int| 0 <= i < log.drop_last().len() implies answers(
            #[trigger] log.drop_last()[i],
            question,
            one,
        ) == answers(log.drop_last()[i], question, other) by {
            assert(log.drop_last()[i] == log[i]);
        }
        cursors_that_agree(log.drop_last(), question, one, other);
    }
}

/// Entries recorded since do not come up behind a cursor on an older one.
proof fn newer_entries_do_not_matter(
    log: Seq<Recorded>,
    longer: Seq<Recorded>,
    question: Question,
    id: i64,
)
    requires
        log.is_prefix_of(longer),
        in_order(longer),
        exists|j: int| 0 <= j < log.len() && (#[trigger] log[j]).entry.id == id,
    ensures
        newest_first(longer, question, Some(id)) == newest_first(log, question, Some(id)),
    decreases longer.len(),
{
    if longer.len() == log.len() {
        assert(longer =~= log);
    } else {
        let j = choose|j: int| 0 <= j < log.len() && (#[trigger] log[j]).entry.id == id;
        assert(longer[j] == log[j]);
        assert(longer[j].entry.id < longer[longer.len() - 1].entry.id);
        newer_entries_do_not_matter(log, longer.drop_last(), question, id);
    }
}

/// A cursor on the entry that was seen last leaves out exactly those seen.
proof fn the_cursor_skips(
    log: Seq<Recorded>,
    question: Question,
    before_id: Option<i64>,
    count: int,
)
    requires
        in_order(log),
        1 <= count <= newest_first(log, question, before_id).len(),
    ensures
        newest_first(log, question, Some(newest_first(log, question, before_id)[count - 1].id))
            == newest_first(log, question, before_id).skip(count),
    decreases log.len(),
{
    let all = newest_first(log, question, before_id);
    let cursor = Some(all[count - 1].id);
    let shorter = log.drop_last();
    let older = newest_first(shorter, question, before_id);
    assert(log[log.len() - 1] == log.last());
    assert forall|i: int| 0 <= i < shorter.len() implies (#[trigger] shorter[i]).entry.id
        < log.last().entry.id by {
        assert(shorter[i] == log[i]);
    }
    if answers(log.last(), question, before_id) {
        if count == 1 {
            assert(all[0] == log.last().entry);
            cursors_that_agree(shorter, question, before_id, cursor);
            assert(all.skip(1) =~= older);
        } else {
            assert(all[count - 1] == older[count - 2]);
            an_answer_is_recorded(shorter, question, before_id, count - 2);
            the_cursor_skips(shorter, question, before_id, count - 1);
            assert(all.skip(count) =~= older.skip(count - 1));
        }
    } else {
        an_answer_is_recorded(shorter, question, before_id, count - 1);
        the_cursor_skips(shorter, question, before_id, count);
    }
}

proof fn an_answer_is_recorded(
    log: Seq<Recorded>,
    question: Question,
    before_id: Option<i64>,
    at: int,
)
    requires
        0 <= at < newest_first(log, question, before_id).len(),
    ensures
        exists|j: int|
            0 <= j < log.len() && answers(#[trigger] log[j], question, before_id) && log[j].entry
                == newest_first(log, question, before_id)[at],
    decreases log.len(),
{
    let all = newest_first(log, question, before_id);
    let shorter = log.drop_last();
    assert(log[log.len() - 1] == log.last());
    if answers(log.last(), question, before_id) && at == 0 {
        assert(log[log.len() - 1].entry == all[at]);
    } else {
        let within = if answers(log.last(), question, before_id) {
            at - 1
        } else {
            at
        };
        an_answer_is_recorded(shorter, question, before_id, within);
        let j = choose|j: int|
            0 <= j < shorter.len() && answers(#[trigger] shorter[j], question, before_id)
                && shorter[j].entry == newest_first(shorter, question, before_id)[within];
        assert(log[j] == shorter[j]);
    }
}

proof fn answers_descend(
    log: Seq<Recorded>,
    question: Question,
    before_id: Option<i64>,
    i: int,
    j: int,
)
    requires
        in_order(log),
        0 <= i < j < newest_first(log, question, before_id).len(),
    ensures
        newest_first(log, question, before_id)[i].id > newest_first(log, question, before_id)[j].id,
    decreases log.len(),
{
    let shorter = log.drop_last();
    assert(log[log.len() - 1] == log.last());
    if !answers(log.last(), question, before_id) {
        answers_descend(shorter, question, before_id, i, j);
    } else if i > 0 {
        answers_descend(shorter, question, before_id, i - 1, j - 1);
    } else {
        an_answer_is_recorded(shorter, question, before_id, j - 1);
        let r = choose|r: int|
            0 <= r < shorter.len() && answers(#[trigger] shorter[r], question, before_id)
                && shorter[r].entry == newest_first(shorter, question, before_id)[j - 1];
        assert(log[r] == shorter[r]);
    }
}

proof fn what_answers_is_there(
    log: Seq<Recorded>,
    question: Question,
    before_id: Option<i64>,
    at: int,
)
    requires
        0 <= at < log.len(),
        answers(log[at], question, before_id),
    ensures
        newest_first(log, question, before_id).contains(log[at].entry),
    decreases log.len(),
{
    let all = newest_first(log, question, before_id);
    let shorter = log.drop_last();
    let older = newest_first(shorter, question, before_id);
    if at == log.len() - 1 {
        assert(all[0] == log[at].entry);
    } else {
        assert(shorter[at] == log[at]);
        what_answers_is_there(shorter, question, before_id, at);
        let o = choose|o: int| 0 <= o < older.len() && older[o] == log[at].entry;
        if answers(log.last(), question, before_id) {
            assert(all[o + 1] == older[o]);
        }
    }
}

/// A question covers the entries of its organization, of its kind of resource and
/// of its resource, where it names one.
pub proof fn a_question_covers_its_own_organization(question: Question, recorded: Recorded)
    ensures
        question.covers(recorded) ==> recorded.organization_id == question.organization_id,
        question.covers(recorded) && question.resource_type is Some
            ==> recorded.entry.resource_type@ == question.resource_type->0,
        question.covers(recorded) && question.resource_id is Some ==> recorded.entry.resource_id@
            == question.resource_id->0,
        recorded.organization_id == question.organization_id && question.resource_type is None
            && question.resource_id is None ==> question.covers(recorded),
        recorded.organization_id == question.organization_id && question.resource_type == Some(
            recorded.entry.resource_type@,
        ) && question.resource_id == Some(recorded.entry.resource_id@) ==> question.covers(recorded),
{
}

} // verus!
