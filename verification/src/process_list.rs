//! The filter that is applied to the tracked processes before they are
//! shown: a mode and the pattern lists that the mode reads.

use crate::text::{str_eq, views};
use vstd::prelude::*;
use vstd::string::*;

verus! {

/// The filtering policy.
#[derive(Debug, Clone, Copy, PartialEq, Eq, Structural)]
pub enum ListMode {
    /// Show only what the whitelist matches.
    Whitelist,
    /// Show all but what the blacklist matches.
    Blacklist,
    /// Show everything.
    Default,
}

/// The name of a mode.
pub open spec fn mode_name(mode: ListMode) -> Seq<char> {
    match mode {
        ListMode::Whitelist => "whitelist"@,
        ListMode::Blacklist => "blacklist"@,
        ListMode::Default => "default"@,
    }
}

/// The mode that `name` names, if it names one. Names are case-sensitive.
pub open spec fn mode_named(name: Seq<char>) -> Option<ListMode> {
    if name == "whitelist"@ {
        Some(ListMode::Whitelist)
    } else if name == "blacklist"@ {
        Some(ListMode::Blacklist)
    } else if name == "default"@ {
        Some(ListMode::Default)
    } else {
        None
    }
}

/// Every mode is the mode that its own name names.
pub proof fn lemma_mode_name_round_trip(mode: ListMode)
    ensures
        mode_named(mode_name(mode)) == Some(mode),
{
    reveal_strlit("whitelist");
    reveal_strlit("blacklist");
    reveal_strlit("default");
    assert("whitelist"@[0] != "blacklist"@[0]);
}

impl ListMode {
    /// The name of this mode.
    pub fn to_str(&self) -> (r: &'static str)
        ensures
            r@ == mode_name(*self),
    {
        match self {
            ListMode::Whitelist => "whitelist",
            ListMode::Blacklist => "blacklist",
            ListMode::Default => "default",
        }
    }

    /// The mode that `input` names; an error where it names none.
    pub fn parse(input: &str) -> (r: Result<ListMode, ()>)
        ensures
            match r {
                Ok(mode) => mode_named(input@) == Some(mode),
                Err(_) => mode_named(input@) is None,
            },
    {
        if str_eq(input, "whitelist") {
            Ok(ListMode::Whitelist)
        } else if str_eq(input, "blacklist") {
            Ok(ListMode::Blacklist)
        } else if str_eq(input, "default") {
            Ok(ListMode::Default)
        } else {
            Err(())
        }
    }
}

impl std::str::FromStr for ListMode {
    type Err = ();

    /// The mode that `input` names; an error where it names none.
    fn from_str(input: &str) -> (r: Result<ListMode, ()>)
        ensures
            match r {
                Ok(mode) => mode_named(input@) == Some(mode),
                Err(_) => mode_named(input@) is None,
            },
    {
        ListMode::parse(input)
    }
}

/// The filter settings of a store. A list that was never filled is absent,
/// which is not the same as empty.
#[derive(Debug)]
pub struct ProcessListOptions {
    pub mode: ListMode,
    pub whitelist: Option<Vec<String>>,
    pub blacklist: Option<Vec<String>>,
    pub tags: Option<Vec<String>>,
}

/// The mathematical model of the filter settings.
pub struct OptionsView {
    pub mode: ListMode,
    pub whitelist: Option<Seq<Seq<char>>>,
    pub blacklist: Option<Seq<Seq<char>>>,
    pub tags: Option<Seq<Seq<char>>>,
}

/// The model of a list that may be absent.
pub open spec fn list_view(list: Option<Vec<String>>) -> Option<Seq<Seq<char>>> {
    match list {
        Some(patterns) => Some(views(patterns@)),
        None => None,
    }
}

impl View for ProcessListOptions {
    type V = OptionsView;

    open spec fn view(&self) -> OptionsView {
        OptionsView {
            mode: self.mode,
            whitelist: list_view(self.whitelist),
            blacklist: list_view(self.blacklist),
            tags: list_view(self.tags),
        }
    }
}

impl OptionsView {
    /// The settings of a new store: everything is shown, no list was filled.
    pub open spec fn initial() -> OptionsView {
        OptionsView { mode: ListMode::Default, whitelist: None, blacklist: None, tags: None }
    }

    /// The whitelist or the blacklist.
    pub open spec fn list(self, whitelist: bool) -> Option<Seq<Seq<char>>> {
        if whitelist {
            self.whitelist
        } else {
            self.blacklist
        }
    }

    /// The settings with the whitelist or the blacklist replaced.
    pub open spec fn with_list(self, whitelist: bool, list: Option<Seq<Seq<char>>>) -> OptionsView {
        if whitelist {
            OptionsView { whitelist: list, ..self }
        } else {
            OptionsView { blacklist: list, ..self }
        }
    }
}

impl Default for ProcessListOptions {
    fn default() -> (r: ProcessListOptions)
        ensures
            r@ == OptionsView::initial(),
    {
        ProcessListOptions { mode: ListMode::Default, whitelist: None, blacklist: None, tags: None }
    }
}

} // verus!
