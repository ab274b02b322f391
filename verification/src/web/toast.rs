//! Transient notifications.
//!
//! Every change the dashboard makes reports its outcome here.

use vstd::prelude::*;

use crate::domain::ValidationIssue;
use crate::text::maybe;
use crate::web::api::ApiError;

verus! {

/// How long a notification stays.
pub const DISMISS_AFTER_MS: u32 = 5_000;

#[derive(Debug, Clone, Copy, PartialEq, Eq, Structural)]
pub enum Level {
    Success,
    Error,
}

impl Level {
    /// How a notification of this level is styled.
    pub fn class(self) -> (class: &'static str)
        ensures
            class@ == (match self {
                Level::Success => "toast toast--success"@,
                Level::Error => "toast toast--error"@,
            }),
    {
        match self {
            Level::Success => "toast toast--success",
            Level::Error => "toast toast--error",
        }
    }
}

#[derive(Debug)]
pub struct Toast {
    pub id: u64,
    pub level: Level,
    pub title: String,
    pub detail: Option<String>,
}

/// Something to report.
#[derive(Debug)]
pub struct Notice {
    pub level: Level,
    pub title: String,
    pub detail: Option<String>,
}

impl Notice {
    /// Whether this reports a success.
    pub open spec fn succeeds(self, title: Seq<char>) -> bool {
        self.level == Level::Success && self.title@ == title && self.detail is None
    }

    /// Whether this reports a failed call.
    pub open spec fn fails(self, context: Seq<char>, error: ApiError) -> bool {
        self.level == Level::Error && self.title@ == context && maybe(self.detail) == Some(
            error_detail(error),
        )
    }

    /// Whether this says something of its own.
    pub open spec fn says(self, level: Level, title: Seq<char>, detail: Seq<char>) -> bool {
        self.level == level && self.title@ == title && maybe(self.detail) == Some(detail)
    }

    pub fn success(title: String) -> (notice: Notice)
        ensures
            notice.succeeds(title@),
            notice.level == Level::Success,
            notice.title@ == title@,
            notice.detail is None,
    {
        Notice { level: Level::Success, title, detail: None }
    }

    /// A failed call.
    pub fn error(context: &str, error: &ApiError) -> (notice: Notice)
        ensures
            notice.fails(context@, *error),
            notice.level == Level::Error,
            notice.title@ == context@,
            notice.detail is Some,
            error.issues@.len() > 0 ==> notice.detail->0@ == error.issues@[0].path@ + ": "@
                + error.issues@[0].message@,
            error.issues@.len() == 0 ==> notice.detail->0@ == error.title@,
    {
        let detail: String = if error.issues.len() > 0 {
            let mut line: String = error.issues[0].path.clone();
            line.append(": ");
            line.append(error.issues[0].message.as_str());
            line
        } else {
            error.title.clone()
        };
        Notice { level: Level::Error, title: context.to_owned(), detail: Some(detail) }
    }

    pub fn message(level: Level, title: &str, detail: &str) -> (notice: Notice)
        ensures
            notice.says(level, title@, detail@),
            notice.level == level,
            notice.title@ == title@,
            notice.detail is Some,
            notice.detail->0@ == detail@,
    {
        Notice { level, title: title.to_owned(), detail: Some(detail.to_owned()) }
    }
}

/// The notifications on screen, oldest first.
#[derive(Debug)]
pub struct Toaster {
    items: Vec<Toast>,
    next_id: u64,
}

/// Whether notifications carry ascending numbers below the next one, so that none
/// is handed out twice.
pub open spec fn numbered(items: Seq<Toast>, next: u64) -> bool {
    &&& forall|i: int| 0 <= i < items.len() ==> (#[trigger] items[i]).id < next
    &&& forall|i: int, j: int|
        0 <= i < j < items.len() ==> (#[trigger] items[i]).id < (#[trigger] items[j]).id
}

/// What a failed call says in detail: its first field-level problem where it has
/// one, since "the configuration is invalid" alone helps nobody.
pub open spec fn error_detail(error: ApiError) -> Seq<char> {
    if error.issues@.len() > 0 {
        issue_line(error.issues@[0])
    } else {
        error.title@
    }
}

/// A field-level problem on one line.
pub open spec fn issue_line(issue: ValidationIssue) -> Seq<char> {
    issue.path@ + ": "@ + issue.message@
}

impl Toaster {
    /// The notifications on screen.
    pub closed spec fn shown(self) -> Seq<Toast> {
        self.items@
    }

    /// The number of the next notification.
    pub closed spec fn next(self) -> u64 {
        self.next_id
    }

    #[verifier::type_invariant]
    spec fn in_order(self) -> bool {
        numbered(self.items@, self.next_id)
    }

    /// Whether a notification was added after those of another state.
    pub open spec fn adds(
        self,
        earlier: Toaster,
        level: Level,
        title: Seq<char>,
        detail: Option<Seq<char>>,
    ) -> bool {
        &&& self.next() == earlier.next() + 1
        &&& self.shown().len() == earlier.shown().len() + 1
        &&& self.shown().drop_last() == earlier.shown()
        &&& self.shown().last().id == earlier.next()
        &&& self.shown().last().level == level
        &&& self.shown().last().title@ == title
        &&& maybe(self.shown().last().detail) == detail
    }

    pub fn new() -> (toaster: Toaster)
        ensures
            toaster.shown().len() == 0,
            toaster.next() == 1,
    {
        Toaster { items: Vec::new(), next_id: 1 }
    }

    pub fn items(&self) -> (items: &Vec<Toast>)
        ensures
            items@ == self.shown(),
            numbered(items@, self.next()),
            forall|i: int, j: int|
                0 <= i < j < items@.len() ==> (#[trigger] items@[i]).id < (#[trigger] items@[j]).id,
            forall|i: int| 0 <= i < items@.len() ==> (#[trigger] items@[i]).id < self.next(),
    {
        proof {
            use_type_invariant(self);
        }
        &self.items
    }

    /// Whether every number was handed out, which no session lives to see.
    pub fn is_spent(&self) -> (yes: bool)
        ensures
            yes == (self.next() == u64::MAX),
    {
        self.next_id == u64::MAX
    }

    /// Reports a success. Hands back the number to dismiss it by.
    pub fn success(&mut self, title: &str) -> (id: u64)
        requires
            old(self).next() < u64::MAX,
        ensures
            id == old(self).next(),
            final(self).adds(*old(self), Level::Success, title@, None),
    {
        self.push(Level::Success, title.to_owned(), None)
    }

    /// Reports a failed call.
    pub fn error(&mut self, context: &str, error: &ApiError) -> (id: u64)
        requires
            old(self).next() < u64::MAX,
        ensures
            id == old(self).next(),
            final(self).adds(*old(self), Level::Error, context@, Some(error_detail(*error))),
    {
        self.notify(Notice::error(context, error))
    }

    pub fn message(&mut self, level: Level, title: &str, detail: &str) -> (id: u64)
        requires
            old(self).next() < u64::MAX,
        ensures
            id == old(self).next(),
            final(self).adds(*old(self), level, title@, Some(detail@)),
    {
        self.push(level, title.to_owned(), Some(detail.to_owned()))
    }

    /// Shows a notice.
    pub fn notify(&mut self, notice: Notice) -> (id: u64)
        requires
            old(self).next() < u64::MAX,
        ensures
            id == old(self).next(),
            final(self).adds(*old(self), notice.level, notice.title@, maybe(notice.detail)),
    {
        self.push(notice.level, notice.title, notice.detail)
    }

    fn push(&mut self, level: Level, title: String, detail: Option<String>) -> (id: u64)
        requires
            old(self).next() < u64::MAX,
        ensures
            id == old(self).next(),
            final(self).adds(*old(self), level, title@, maybe(detail)),
    {
        proof {
            use_type_invariant(&*self);
        }
        let id: u64 = self.next_id;
        let ghost earlier = self.items@;
        let mut items: Vec<Toast> = Vec::new();
        std::mem::swap(&mut items, &mut self.items);
        items.push(Toast { id, level, title, detail });
        self.next_id = id + 1;
        self.items = items;
        assert(self.items@.drop_last() =~= earlier);
        id
    }

    /// Takes a notification off the screen, if it is still there.
    pub fn dismiss(&mut self, id: u64)
        ensures
            final(self).next() == old(self).next(),
            final(self).shown() == old(self).shown().filter(|toast: Toast| toast.id != id),
    {
        proof {
            use_type_invariant(&*self);
        }
        let ghost all = self.items@;
        let ghost stays = |toast: Toast| toast.id != id;
        let mut rest: Vec<Toast> = Vec::new();
        std::mem::swap(&mut rest, &mut self.items);
        let mut kept: Vec<Toast> = Vec::new();
        for toast in it: rest
            invariant
                it.seq() == all,
                kept@ == all.take(it.index()).filter(stays),
                stays == (|toast: Toast| toast.id != id),
        {
            assert(all.take(it.index() + 1).drop_last() =~= all.take(it.index()));
            assert(all.take(it.index() + 1).filter(stays) == if stays(toast) {
                all.take(it.index()).filter(stays).push(toast)
            } else {
                all.take(it.index()).filter(stays)
            }) by {
                reveal(Seq::filter);
            }
            if toast.id != id {
                kept.push(toast);
            }
        }
        assert(all.take(all.len() as int) =~= all);
        proof {
            dismissing_keeps_order(all, id, self.next_id);
        }
        self.items = kept;
    }
}

proof fn dismissing_keeps_order(items: Seq<Toast>, id: u64, bound: u64)
    requires
        numbered(items, bound),
    ensures
        numbered(items.filter(|toast: Toast| toast.id != id), bound),
    decreases items.len(),
{
    reveal(Seq::filter);
    if items.len() > 0 {
        let earlier = items.drop_last();
        assert forall|i: int| 0 <= i < earlier.len() implies (#[trigger] earlier[i]).id
            < items.last().id by {
            assert(earlier[i] == items[i]);
        }
        dismissing_keeps_order(earlier, id, items.last().id);
    }
}

/// Once dismissed, a notification is gone, and dismissing it again changes
/// nothing.
pub proof fn dismissing_is_final(items: Seq<Toast>, id: u64)
    ensures
        ({
            let left = items.filter(|toast: Toast| toast.id != id);
            &&& forall|i: int| 0 <= i < left.len() ==> (#[trigger] left[i]).id != id
            &&& left.filter(|toast: Toast| toast.id != id) == left
        }),
    decreases items.len(),
{
    reveal(Seq::filter);
    let stays = |toast: Toast| toast.id != id;
    if items.len() > 0 {
        dismissing_is_final(items.drop_last(), id);
        let earlier = items.drop_last().filter(stays);
        if stays(items.last()) {
            let left = earlier.push(items.last());
            assert(left.drop_last() =~= earlier);
        }
    }
}

impl Default for Toaster {
    fn default() -> (toaster: Toaster)
        ensures
            toaster.shown().len() == 0,
            toaster.next() == 1,
    {
        Toaster::new()
    }
}

/// What a notice reports: a success has no detail, a failed call the first
/// field-level problem or else the title of the error, and a message its own.
pub proof fn a_notice_says_what_it_reports(
    notice: Notice,
    title: Seq<char>,
    error: ApiError,
    level: Level,
    detail: Seq<char>,
)
    ensures
        notice.succeeds(title) ==> notice.level == Level::Success && notice.title@ == title
            && notice.detail is None,
        notice.fails(title, error) ==> {
            &&& notice.level == Level::Error
            &&& notice.title@ == title
            &&& notice.detail is Some
            &&& error.issues@.len() > 0 ==> notice.detail->0@ == error.issues@[0].path@ + ": "@
                + error.issues@[0].message@
            &&& error.issues@.len() == 0 ==> notice.detail->0@ == error.title@
        },
        notice.says(level, title, detail) ==> notice.level == level && notice.title@ == title
            && notice.detail is Some && notice.detail->0@ == detail,
{
}

/// A new notification goes behind those on screen, which stay as they are, with
/// the next number and what it was given.
pub proof fn a_notification_goes_behind_the_others(
    toaster: Toaster,
    earlier: Toaster,
    level: Level,
    title: Seq<char>,
    detail: Option<Seq<char>>,
)
    requires
        toaster.adds(earlier, level, title, detail),
    ensures
        toaster.next() == earlier.next() + 1,
        toaster.shown().len() == earlier.shown().len() + 1,
        forall|i: int|
            0 <= i < earlier.shown().len() ==> #[trigger] toaster.shown()[i] == earlier.shown()[i],
        ({
            let added = toaster.shown()[earlier.shown().len() as int];
            &&& added.id == earlier.next()
            &&& added.level == level
            &&& added.title@ == title
            &&& added.detail is Some <==> detail is Some
            &&& added.detail is Some ==> added.detail->0@ == detail->0
        }),
{
    assert forall|i: int| 0 <= i < earlier.shown().len() implies #[trigger] toaster.shown()[i]
        == earlier.shown()[i] by {
        assert(toaster.shown().drop_last()[i] == earlier.shown()[i]);
    }
}

} // verus!
