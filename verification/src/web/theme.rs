//! Light and dark.

use vstd::prelude::*;

use crate::text::{maybe_str, same_text};

verus! {

/// Where the choice is kept between visits, as a bare word.
pub const THEME_KEY: &'static str = "flagforge.theme";

#[derive(Debug, Clone, Copy, PartialEq, Eq, Structural)]
pub enum Theme {
    Light,
    Dark,
}

/// The theme a page attribute stands for: dark only where it says so.
pub open spec fn theme_named(attribute: Option<Seq<char>>) -> Theme {
    if attribute == Some("dark"@) {
        Theme::Dark
    } else {
        Theme::Light
    }
}

impl Theme {
    /// How a theme is written in the page and in storage.
    pub open spec fn name(self) -> Seq<char> {
        match self {
            Theme::Light => "light"@,
            Theme::Dark => "dark"@,
        }
    }

    /// The other theme.
    pub open spec fn other(self) -> Theme {
        match self {
            Theme::Light => Theme::Dark,
            Theme::Dark => Theme::Light,
        }
    }

    pub fn as_str(self) -> (text: &'static str)
        ensures
            text@ == self.name(),
            self == Theme::Light ==> text@ == "light"@,
            self == Theme::Dark ==> text@ == "dark"@,
    {
        match self {
            Theme::Light => "light",
            Theme::Dark => "dark",
        }
    }

    pub fn toggled(self) -> (theme: Theme)
        ensures
            theme == self.other(),
            theme != self,
    {
        match self {
            Theme::Light => Theme::Dark,
            Theme::Dark => Theme::Light,
        }
    }

    /// What the button that switches says it does.
    pub fn switch_label(self) -> (text: &'static str)
        ensures
            text@ == (match self {
                Theme::Dark => "Switch to light theme"@,
                Theme::Light => "Switch to dark theme"@,
            }),
    {
        match self {
            Theme::Dark => "Switch to light theme",
            Theme::Light => "Switch to dark theme",
        }
    }

    /// The icon on that button.
    pub fn switch_icon(self) -> (name: &'static str)
        ensures
            name@ == (match self {
                Theme::Dark => "sun"@,
                Theme::Light => "moon"@,
            }),
    {
        match self {
            Theme::Dark => "sun",
            Theme::Light => "moon",
        }
    }

    /// The word on that button.
    pub fn switch_word(self) -> (text: &'static str)
        ensures
            text@ == (match self {
                Theme::Dark => "Light"@,
                Theme::Light => "Dark"@,
            }),
    {
        match self {
            Theme::Dark => "Light",
            Theme::Light => "Dark",
        }
    }
}

/// The theme the page was painted in.
pub fn current(attribute: Option<&str>) -> (theme: Theme)
    ensures
        theme == theme_named(maybe_str(attribute)),
        theme == Theme::Dark <==> attribute is Some && attribute->0@ == "dark"@,
{
    match attribute {
        Some(attribute) => if same_text(attribute, "dark") {
            Theme::Dark
        } else {
            Theme::Light
        },
        None => Theme::Light,
    }
}

/// Switches, and says what to write into the page and into storage.
pub fn toggle(theme: &mut Theme) -> (written: &'static str)
    ensures
        *final(theme) == old(theme).other(),
        *final(theme) != *old(theme),
        written@ == final(theme).name(),
        written@ == (match *final(theme) {
            Theme::Light => "light"@,
            Theme::Dark => "dark"@,
        }),
{
    *theme = theme.toggled();
    theme.as_str()
}

/// Switching twice changes nothing.
pub proof fn toggling_twice_changes_nothing(theme: Theme)
    ensures
        theme.other().other() == theme,
        theme.other() != theme,
{
}

/// What is written for a theme is read back as that theme.
pub proof fn themes_round_trip(theme: Theme)
    ensures
        theme_named(Some(theme.name())) == theme,
{
    reveal_strlit("light");
    reveal_strlit("dark");
    assert("light"@[0] == 'l' && "dark"@[0] == 'd');
}

} // verus!
