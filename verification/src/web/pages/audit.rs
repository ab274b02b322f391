//! Change history.

use vstd::prelude::*;

use crate::text::{ends, ends_with};
use crate::web::api;
use crate::web::api::models::{may_administer, AuditEntry, AuditPage, Me};
use crate::web::api::{audit_path, ApiError, Body, Call, Load, Method};

verus! {

/// How many entries are asked for at a time.
pub const PAGE_SIZE: u32 = 40;

/// The page of the audit log.
#[derive(Debug)]
pub struct Audit {
    pub entries: Load<Vec<AuditEntry>>,
    /// Where the older entries begin, if there are any.
    pub cursor: Option<i64>,
    pub loading_more: bool,
    /// The entry whose details are shown.
    pub expanded: Option<i64>,
}

/// Whether a request asks for a page of the log.
pub open spec fn asks_for_page(call: Call<'_>, token: Seq<char>, before: Option<i64>) -> bool {
    &&& call.is(Method::Get, audit_path(PAGE_SIZE as nat, before), Some(token))
    &&& call.body == Body::Nothing
}

impl Audit {
    pub fn new() -> (page: Audit)
        ensures
            page == (Audit {
                entries: Load::Loading,
                cursor: None,
                loading_more: false,
                expanded: None,
            }),
    {
        Audit { entries: Load::Loading, cursor: None, loading_more: false, expanded: None }
    }

    /// Asks for the newest entries.
    pub fn load_first<'a>(&mut self, token: Option<&'a str>) -> (call: Option<Call<'a>>)
        ensures
            match token {
                Some(token) => {
                    &&& *final(self) == (Audit { entries: Load::Loading, ..*old(self) })
                    &&& call matches Some(call) && asks_for_page(call, token@, None)
                },
                None => *final(self) == *old(self) && call is None,
            },
    {
        match token {
            Some(token) => {
                self.entries = Load::Loading;
                Some(api::audit(token, PAGE_SIZE, None))
            },
            None => None,
        }
    }

    /// What the server said.
    pub fn first_loaded(&mut self, answer: Result<AuditPage, ApiError>)
        ensures
            *final(self) == (match answer {
                Ok(page) => Audit {
                    entries: Load::Ready(page.entries),
                    cursor: page.next_cursor,
                    ..*old(self)
                },
                Err(error) => Audit { entries: Load::Failed(error), ..*old(self) },
            }),
    {
        match answer {
            Ok(page) => {
                self.cursor = page.next_cursor;
                self.entries = Load::Ready(page.entries);
            },
            Err(error) => {
                self.entries = Load::Failed(error);
            },
        }
    }

    /// Asks for the entries before the oldest shown, where there are any and
    /// they have not been asked for already.
    pub fn load_more<'a>(&mut self, token: Option<&'a str>) -> (call: Option<Call<'a>>)
        ensures
            match (token, old(self).cursor) {
                (Some(token), Some(before)) => if old(self).loading_more {
                    *final(self) == *old(self) && call is None
                } else {
                    &&& *final(self) == (Audit { loading_more: true, ..*old(self) })
                    &&& call matches Some(call) && asks_for_page(call, token@, Some(before))
                },
                _ => *final(self) == *old(self) && call is None,
            },
    {
        match (token, self.cursor) {
            (Some(token), Some(before)) => {
                if self.loading_more {
                    return None;
                }
                self.loading_more = true;
                Some(api::audit(token, PAGE_SIZE, Some(before)))
            },
            _ => None,
        }
    }

    /// What the server said. Older entries go behind those that are there; a
    /// failure leaves everything as it is, so that asking again is possible.
    pub fn more_loaded(&mut self, answer: Result<AuditPage, ApiError>)
        ensures
            !final(self).loading_more,
            final(self).expanded == old(self).expanded,
            match answer {
                Ok(page) => {
                    &&& final(self).cursor == page.next_cursor
                    &&& match old(self).entries {
                        Load::Ready(list) => final(self).entries matches Load::Ready(longer)
                            && longer@ == list@ + page.entries@,
                        _ => final(self).entries == old(self).entries,
                    }
                },
                Err(_) => final(self).cursor == old(self).cursor && final(self).entries == old(
                    self,
                ).entries,
            },
    {
        match answer {
            Ok(page) => {
                self.cursor = page.next_cursor;
                let mut older: Vec<AuditEntry> = page.entries;
                match &mut self.entries {
                    Load::Ready(list) => {
                        list.append(&mut older);
                    },
                    _ => {},
                }
            },
            Err(_) => {},
        }
        self.loading_more = false;
    }

    /// Shows an entry's details, or hides them where they are shown.
    pub fn toggle(&mut self, id: i64)
        ensures
            *final(self) == (Audit {
                expanded: if old(self).expanded == Some(id) {
                    None
                } else {
                    Some(id)
                },
                ..*old(self)
            }),
    {
        let open: bool = self.is_open(id);
        self.expanded = if open {
            None
        } else {
            Some(id)
        };
    }

    /// Whether an entry's details are shown.
    pub fn is_open(&self, id: i64) -> (open: bool)
        ensures
            open == (self.expanded == Some(id)),
    {
        match self.expanded {
            Some(shown) => shown == id,
            None => false,
        }
    }
}

/// Whether a reader is told that the log is for administrators.
pub fn warns(me: Option<&Me>) -> (yes: bool)
    ensures
        yes == !(me matches Some(me) && may_administer(me.user.role@)),
{
    match me {
        Some(me) => !me.user.can_administer(),
        None => true,
    }
}

/// Whether an entry has details to show.
pub fn has_diff(entry: &AuditEntry) -> (yes: bool)
    ensures
        yes == (entry.before is Some || entry.after is Some),
{
    entry.before.is_some() || entry.after.is_some()
}

/// How an action is coloured, so that a destructive one stands out.
pub open spec fn badge(action: Seq<char>) -> Seq<char> {
    if ends(action, ".deleted"@) || ends(action, ".revoked"@) {
        "badge badge--danger"@
    } else if ends(action, ".created"@) {
        "badge badge--on"@
    } else {
        "badge badge--accent"@
    }
}

/// How an action is coloured.
pub fn badge_for(action: &str) -> (class: &'static str)
    ensures
        class@ == badge(action@),
        ends(action@, ".deleted"@) || ends(action@, ".revoked"@) ==> class@
            == "badge badge--danger"@,
        ends(action@, ".created"@) && !ends(action@, ".deleted"@) && !ends(action@, ".revoked"@)
            ==> class@ == "badge badge--on"@,
        !ends(action@, ".created"@) && !ends(action@, ".deleted"@) && !ends(action@, ".revoked"@)
            ==> class@ == "badge badge--accent"@,
{
    if ends_with(action, ".deleted") || ends_with(action, ".revoked") {
        "badge badge--danger"
    } else if ends_with(action, ".created") {
        "badge badge--on"
    } else {
        "badge badge--accent"
    }
}

/// A JSON document written out over several lines.
pub uninterp spec fn pretty_json(document: serde_json::Value) -> Option<Seq<char>>;

/// Calls `serde_json::to_string_pretty`: the document over several lines, or
/// nothing where it cannot be written. The result is a function of the document
/// alone.
#[verifier::external_body]
fn print_pretty(document: &serde_json::Value) -> (text: Option<String>)
    ensures
        match text {
            Some(t) => pretty_json(*document) == Some(t@),
            None => pretty_json(*document) is None,
        },
{
    serde_json::to_string_pretty(document).ok()
}

/// One side of a change: the document, or a dash where there is none.
pub fn render_json(value: &Option<serde_json::Value>) -> (text: String)
    ensures
        text@ == (match value {
            Some(document) => match pretty_json(*document) {
                Some(pretty) => pretty,
                None => "\u{2014}"@,
            },
            None => "\u{2014}"@,
        }),
{
    match value {
        Some(document) => match print_pretty(document) {
            Some(text) => text,
            None => "\u{2014}".to_owned(),
        },
        None => "\u{2014}".to_owned(),
    }
}

/// A page of the log is asked for forty entries at a time, from where the last
/// page ended.
pub proof fn a_page_is_asked_for_from_the_cursor(
    call: Call<'_>,
    token: Seq<char>,
    before: Option<i64>,
)
    requires
        asks_for_page(call, token, before),
    ensures
        call.method == Method::Get,
        call.path@ == audit_path(40, before),
        call.token is Some && call.token->0@ == token,
        call.body == Body::Nothing,
{
}

} // verus!
