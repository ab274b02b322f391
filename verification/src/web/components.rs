//! Shared pieces of the dashboard.

use vstd::prelude::*;

use crate::text::same_text;
pub use crate::time::relative_time;

verus! {

/// The path data of an icon; an unknown name gets a circle.
pub open spec fn icon_path(name: Seq<char>) -> Seq<char> {
    if name == "flag"@ {
        "<path d=\"M4 21V4h13l-3 4.5L17 13H4\"/>"@
    } else if name == "folder"@ {
        "<path d=\"M3 7a2 2 0 0 1 2-2h4l2 2.5h8a2 2 0 0 1 2 2V18a2 2 0 0 1-2 2H5a2 2 0 0 1-2-2z\"/>"@
    } else if name == "key"@ {
        "<circle cx=\"8\" cy=\"14\" r=\"4\"/><path d=\"M11 11 20 2m-3 3 2.5 2.5M14.5 7.5 17 10\"/>"@
    } else if name == "history"@ {
        "<path d=\"M3 12a9 9 0 1 0 3-6.7L3 8\"/><path d=\"M3 3v5h5\"/><path d=\"M12 7v5l3.5 2\"/>"@
    } else if name == "layers"@ {
        "<path d=\"M12 3 3 8l9 5 9-5z\"/><path d=\"m3 13 9 5 9-5\"/>"@
    } else if name == "sun"@ {
        "<circle cx=\"12\" cy=\"12\" r=\"4\"/><path d=\"M12 2v2m0 16v2M4.9 4.9l1.4 1.4m11.4 11.4 1.4 1.4M2 12h2m16 0h2M4.9 19.1l1.4-1.4M17.7 6.3l1.4-1.4\"/>"@
    } else if name == "moon"@ {
        "<path d=\"M20 14.5A8.5 8.5 0 0 1 9.5 4a8.5 8.5 0 1 0 10.5 10.5z\"/>"@
    } else if name == "plus"@ {
        "<path d=\"M12 5v14M5 12h14\"/>"@
    } else if name == "trash"@ {
        "<path d=\"M4 7h16M9 7V5a1 1 0 0 1 1-1h4a1 1 0 0 1 1 1v2m2 0v12a1 1 0 0 1-1 1H8a1 1 0 0 1-1-1V7\"/>"@
    } else if name == "check"@ {
        "<path d=\"m5 12.5 4.5 4.5L19 7\"/>"@
    } else if name == "close"@ {
        "<path d=\"M6 6 18 18M18 6 6 18\"/>"@
    } else if name == "alert"@ {
        "<circle cx=\"12\" cy=\"12\" r=\"9\"/><path d=\"M12 7.5v5M12 16.2v.1\"/>"@
    } else if name == "copy"@ {
        "<rect x=\"9\" y=\"9\" width=\"12\" height=\"12\" rx=\"2\"/><path d=\"M5 15H4a1 1 0 0 1-1-1V4a1 1 0 0 1 1-1h10a1 1 0 0 1 1 1v1\"/>"@
    } else if name == "back"@ {
        "<path d=\"M15 5 8 12l7 7\"/>"@
    } else if name == "logout"@ {
        "<path d=\"M9 21H5a2 2 0 0 1-2-2V5a2 2 0 0 1 2-2h4\"/><path d=\"M16 17l5-5-5-5M21 12H9\"/>"@
    } else if name == "search"@ {
        "<circle cx=\"11\" cy=\"11\" r=\"7\"/><path d=\"m20 20-3.5-3.5\"/>"@
    } else if name == "inbox"@ {
        "<path d=\"M3 12h5l2 3h4l2-3h5\"/><path d=\"M5 5h14l2 7v6a1 1 0 0 1-1 1H4a1 1 0 0 1-1-1v-6z\"/>"@
    } else {
        "<circle cx=\"12\" cy=\"12\" r=\"9\"/>"@
    }
}

/// The path data of an icon; an unknown name gets a circle.
pub fn path_for(name: &str) -> (path: &'static str)
    ensures
        path@ == icon_path(name@),
{
    if same_text(name, "flag") {
        "<path d=\"M4 21V4h13l-3 4.5L17 13H4\"/>"
    } else if same_text(name, "folder") {
        "<path d=\"M3 7a2 2 0 0 1 2-2h4l2 2.5h8a2 2 0 0 1 2 2V18a2 2 0 0 1-2 2H5a2 2 0 0 1-2-2z\"/>"
    } else if same_text(name, "key") {
        "<circle cx=\"8\" cy=\"14\" r=\"4\"/><path d=\"M11 11 20 2m-3 3 2.5 2.5M14.5 7.5 17 10\"/>"
    } else if same_text(name, "history") {
        "<path d=\"M3 12a9 9 0 1 0 3-6.7L3 8\"/><path d=\"M3 3v5h5\"/><path d=\"M12 7v5l3.5 2\"/>"
    } else if same_text(name, "layers") {
        "<path d=\"M12 3 3 8l9 5 9-5z\"/><path d=\"m3 13 9 5 9-5\"/>"
    } else if same_text(name, "sun") {
        "<circle cx=\"12\" cy=\"12\" r=\"4\"/><path d=\"M12 2v2m0 16v2M4.9 4.9l1.4 1.4m11.4 11.4 1.4 1.4M2 12h2m16 0h2M4.9 19.1l1.4-1.4M17.7 6.3l1.4-1.4\"/>"
    } else if same_text(name, "moon") {
        "<path d=\"M20 14.5A8.5 8.5 0 0 1 9.5 4a8.5 8.5 0 1 0 10.5 10.5z\"/>"
    } else if same_text(name, "plus") {
        "<path d=\"M12 5v14M5 12h14\"/>"
    } else if same_text(name, "trash") {
        "<path d=\"M4 7h16M9 7V5a1 1 0 0 1 1-1h4a1 1 0 0 1 1 1v2m2 0v12a1 1 0 0 1-1 1H8a1 1 0 0 1-1-1V7\"/>"
    } else if same_text(name, "check") {
        "<path d=\"m5 12.5 4.5 4.5L19 7\"/>"
    } else if same_text(name, "close") {
        "<path d=\"M6 6 18 18M18 6 6 18\"/>"
    } else if same_text(name, "alert") {
        "<circle cx=\"12\" cy=\"12\" r=\"9\"/><path d=\"M12 7.5v5M12 16.2v.1\"/>"
    } else if same_text(name, "copy") {
        "<rect x=\"9\" y=\"9\" width=\"12\" height=\"12\" rx=\"2\"/><path d=\"M5 15H4a1 1 0 0 1-1-1V4a1 1 0 0 1 1-1h10a1 1 0 0 1 1 1v1\"/>"
    } else if same_text(name, "back") {
        "<path d=\"M15 5 8 12l7 7\"/>"
    } else if same_text(name, "logout") {
        "<path d=\"M9 21H5a2 2 0 0 1-2-2V5a2 2 0 0 1 2-2h4\"/><path d=\"M16 17l5-5-5-5M21 12H9\"/>"
    } else if same_text(name, "search") {
        "<circle cx=\"11\" cy=\"11\" r=\"7\"/><path d=\"m20 20-3.5-3.5\"/>"
    } else if same_text(name, "inbox") {
        "<path d=\"M3 12h5l2 3h4l2-3h5\"/><path d=\"M5 5h14l2 7v6a1 1 0 0 1-1 1H4a1 1 0 0 1-1-1v-6z\"/>"
    } else {
        "<circle cx=\"12\" cy=\"12\" r=\"9\"/>"
    }
}

/// Whether a key closes a dialog.
pub fn closes_dialog(key: &str) -> (yes: bool)
    ensures
        yes == (key@ == "Escape"@),
{
    same_text(key, "Escape")
}

/// Where a trapped key press moves the focus, as a position among the `count`
/// controls of a dialog; nothing where the browser may go on as usual.
///
/// Without the wrap a keyboard user ends up typing into a page they were told is
/// out of reach.
pub open spec fn trapped(key: Seq<char>, shift: bool, count: int, active: Option<usize>) -> Option<
    int,
> {
    if key != "Tab"@ || count == 0 {
        None
    } else if shift && active == Some(0usize) {
        Some(count - 1)
    } else if !shift && (active matches Some(at) && at == count - 1) {
        Some(0)
    } else {
        None
    }
}

/// Where a trapped key press moves the focus.
pub fn trap(key: &str, shift: bool, count: usize, active: Option<usize>) -> (target: Option<usize>)
    ensures
        match target {
            Some(at) => trapped(key@, shift, count as int, active) == Some(at as int),
            None => trapped(key@, shift, count as int, active) is None,
        },
        target is Some <==> key@ == "Tab"@ && count > 0 && active is Some && (if shift {
            active->0 == 0
        } else {
            active->0 == count - 1
        }),
        target is Some && shift ==> target->0 == count - 1,
        target is Some && !shift ==> target->0 == 0,
{
    if !same_text(key, "Tab") || count == 0 {
        return None;
    }
    match active {
        Some(at) => if shift && at == 0 {
            Some(count - 1)
        } else if !shift && at == count - 1 {
            Some(0)
        } else {
            None
        },
        None => None,
    }
}

/// The focus a trapped key press asks for is always in the dialog.
pub proof fn focus_stays_inside(key: Seq<char>, shift: bool, count: int, active: Option<usize>)
    requires
        count >= 0,
    ensures
        trapped(key, shift, count, active) matches Some(at) ==> 0 <= at < count,
{
}

/// The width of a placeholder row, in percent, so that the rows do not all look
/// alike.
pub fn skeleton_width(row: usize) -> (percent: usize)
    requires
        row * 13 <= usize::MAX,
    ensures
        percent == 55 + (row * 13) % 35,
        55 <= percent < 90,
{
    55 + (row * 13) % 35
}

/// What is said once something is in the clipboard.
pub fn copied(label: &str) -> (title: String)
    ensures
        title@ == label@ + " copied"@,
{
    let mut title: String = label.to_owned();
    title.append(" copied");
    title
}

/// A destructive action that asks first: one press arms it, a second one does
/// it.
#[derive(Debug, Clone, Copy, PartialEq, Eq, Structural)]
pub struct Confirmation {
    pub armed: bool,
}

impl Confirmation {
    pub fn new() -> (asked: Confirmation)
        ensures
            !asked.armed,
    {
        Confirmation { armed: false }
    }

    /// Asks for confirmation.
    pub fn arm(&mut self)
        ensures
            final(self).armed,
    {
        self.armed = true;
    }

    /// Confirms; says whether to go ahead. Either way it has to be armed again
    /// next time.
    pub fn confirm(&mut self) -> (go: bool)
        ensures
            go == old(self).armed,
            !final(self).armed,
    {
        let go: bool = self.armed;
        self.armed = false;
        go
    }

    /// Thinks better of it.
    pub fn cancel(&mut self)
        ensures
            !final(self).armed,
    {
        self.armed = false;
    }
}

} // verus!
