//! The decisions behind the windows: the launcher popup's state (search
//! text, results, selection), what a hotkey press does to it, how an edited
//! shortcut is tidied before saving, and the status line texts.

use vstd::prelude::*;
use crate::hotkeys::HotkeyAction;
use crate::launch::LaunchError;
use crate::shortcut::{default_category, default_category_text, Shortcut};
use crate::store::{is_search_result, law_blank_query_finds_all, ShortcutStore};
use crate::text::{same_text, trim, trimmed_of, trim_end_of, trim_start_of};

verus! {

/// The launcher popup: whether it shows, what is typed, the results for it
/// and which result is selected.
pub struct LauncherState {
    pub visible: bool,
    pub search: String,
    pub selected: usize,
    pub results: Vec<Shortcut>,
}

/// A key press or mouse event in the launcher popup.
#[derive(Clone, Copy, Debug, PartialEq, Eq, Structural)]
pub enum LauncherInput {
    /// Esc: close the popup.
    Escape,
    /// Enter: launch the selected result.
    Enter,
    /// Arrow down.
    Next,
    /// Arrow up.
    Previous,
    /// The pointer is over the result at this position.
    Hover(usize),
    /// The result at this position was clicked.
    Click(usize),
}

/// `a` and `b` show the same typed text and results.
pub open spec fn same_listing(a: LauncherState, b: LauncherState) -> bool {
    a.search == b.search && a.results == b.results
}

impl LauncherState {
    /// Hidden, nothing typed, no results.
    pub fn new() -> (r: LauncherState)
        ensures
            !r.visible,
            r.search@ == Seq::<char>::empty(),
            r.selected == 0,
            r.results@ == Seq::<Shortcut>::empty(),
    {
        LauncherState { visible: false, search: String::new(), selected: 0, results: Vec::new() }
    }

    /// Searches `store` for the typed text (all categories) and selects the
    /// first result.
    pub fn refresh(&mut self, store: &ShortcutStore)
        ensures
            final(self).visible == old(self).visible,
            final(self).search == old(self).search,
            final(self).selected == 0,
            is_search_result(store@, old(self).search@, None, final(self).results@),
    {
        self.results = store.search(self.search.as_str(), None);
        self.selected = 0;
    }

    /// Shows the popup if hidden (clearing the typed text and listing every
    /// shortcut, first one selected) or hides it if shown.
    pub fn toggle(&mut self, store: &ShortcutStore)
        ensures
            final(self).visible == !old(self).visible,
            final(self).visible ==> final(self).search@ == Seq::<char>::empty() && final(self).selected
                == 0 && is_search_result(store@, Seq::<char>::empty(), None, final(self).results@),
            !final(self).visible ==> final(self).search == old(self).search && final(self).selected
                == old(self).selected && final(self).results == old(self).results,
    {
        self.visible = !self.visible;
        if self.visible {
            self.search = String::new();
            self.refresh(store);
        }
    }

    /// Arrow down: selects the next result, if there is one.
    pub fn select_next(&mut self)
        ensures
            final(self).selected == if old(self).selected + 1 < old(self).results.len() {
                old(self).selected + 1
            } else {
                old(self).selected as int
            },
            final(self).visible == old(self).visible,
            final(self).search == old(self).search,
            final(self).results == old(self).results,
    {
        if self.results.len() > 0 && self.selected < self.results.len() - 1 {
            self.selected = self.selected + 1;
        }
    }

    /// Arrow up: selects the previous result, if there is one.
    pub fn select_previous(&mut self)
        ensures
            final(self).selected == if old(self).selected > 0 {
                old(self).selected - 1
            } else {
                0
            },
            final(self).visible == old(self).visible,
            final(self).search == old(self).search,
            final(self).results == old(self).results,
    {
        if self.selected > 0 {
            self.selected = self.selected - 1;
        }
    }

    /// A copy of the selected result, if the selection points at one.
    pub fn chosen(&self) -> (r: Option<Shortcut>)
        ensures
            self.selected < self.results.len() ==> r == Some(self.results@[self.selected as int]),
            self.selected >= self.results.len() ==> r is None,
    {
        if self.selected < self.results.len() {
            Some(self.results[self.selected].clone())
        } else {
            None
        }
    }

    /// What a key or mouse event in the popup does. Esc hides the popup.
    /// Enter launches the selected result and hides the popup (with no
    /// result selected nothing happens). A click launches the clicked
    /// result and hides the popup. Hovering selects the result under the
    /// pointer; the arrows move the selection (`select_next`,
    /// `select_previous`). The typed text and the results never change
    /// here; the result is the shortcut to launch, if any.
    pub fn handle_input(&mut self, input: LauncherInput) -> (r: Option<Shortcut>)
        ensures
            same_listing(*final(self), *old(self)),
            match input {
                LauncherInput::Escape => r is None && !final(self).visible && final(self).selected
                    == old(self).selected,
                LauncherInput::Enter => if old(self).selected < old(self).results.len() {
                    r == Some(old(self).results@[old(self).selected as int]) && !final(self).visible
                        && final(self).selected == old(self).selected
                } else {
                    r is None && *final(self) == *old(self)
                },
                LauncherInput::Next => r is None && final(self).visible == old(self).visible
                    && final(self).selected == if old(self).selected + 1 < old(self).results.len() {
                    old(self).selected + 1
                } else {
                    old(self).selected as int
                },
                LauncherInput::Previous => r is None && final(self).visible == old(self).visible
                    && final(self).selected == if old(self).selected > 0 {
                    old(self).selected - 1
                } else {
                    0
                },
                LauncherInput::Hover(i) => r is None && final(self).visible == old(self).visible
                    && final(self).selected == i,
                LauncherInput::Click(i) => if i < old(self).results.len() {
                    r == Some(old(self).results@[i as int]) && !final(self).visible
                        && final(self).selected == old(self).selected
                } else {
                    r is None && *final(self) == *old(self)
                },
            },
    {
        match input {
            LauncherInput::Escape => {
                self.visible = false;
                None
            },
            LauncherInput::Enter => {
                let chosen = self.chosen();
                if chosen.is_some() {
                    self.visible = false;
                }
                chosen
            },
            LauncherInput::Next => {
                self.select_next();
                None
            },
            LauncherInput::Previous => {
                self.select_previous();
                None
            },
            LauncherInput::Hover(i) => {
                self.selected = i;
                None
            },
            LauncherInput::Click(i) => {
                if i < self.results.len() {
                    self.visible = false;
                    Some(self.results[i].clone())
                } else {
                    None
                }
            },
        }
    }
}

/// What pressing a registered hotkey does: the launcher toggle flips the
/// popup (see `LauncherState::toggle`); a shortcut hotkey changes nothing
/// here and yields the shortcut to launch, if the store still has it.
pub fn hotkey_response(launcher: &mut LauncherState, store: &ShortcutStore, action: HotkeyAction) -> (r: Option<Shortcut>)
    ensures
        match action {
            HotkeyAction::TogglePopup => {
                &&& r is None
                &&& final(launcher).visible == !old(launcher).visible
                &&& final(launcher).visible ==> final(launcher).search@ == Seq::<char>::empty()
                    && final(launcher).selected == 0 && is_search_result(
                    store@,
                    Seq::<char>::empty(),
                    None,
                    final(launcher).results@,
                )
                &&& !final(launcher).visible ==> final(launcher).search == old(launcher).search
                    && final(launcher).selected == old(launcher).selected && final(launcher).results
                    == old(launcher).results
            },
            HotkeyAction::LaunchShortcut(id) => {
                &&& *final(launcher) == *old(launcher)
                &&& match r {
                    Some(s) => exists|i: int| crate::store::is_first_with_id(store@, id@, i) && s == store@[i],
                    None => crate::store::lacks_id(store@, id@),
                }
            },
        },
{
    match action {
        HotkeyAction::TogglePopup => {
            launcher.toggle(store);
            None
        },
        HotkeyAction::LaunchShortcut(id) => store.get_by_id(id.as_str()),
    }
}

/// The name given to a shortcut saved without one.
pub open spec fn untitled() -> Seq<char> {
    "Untitled"@
}

/// Tidies an edited shortcut before saving: a blank name (only white space)
/// becomes "Untitled"; the category is trimmed, and a blank one becomes the
/// default category. Everything else is kept.
pub fn prepare_for_save(shortcut: Shortcut) -> (r: Shortcut)
    ensures
        r.name@ == if trimmed_of(shortcut.name@).len() == 0 {
            untitled()
        } else {
            shortcut.name@
        },
        r.category@ == if trimmed_of(shortcut.category@).len() == 0 {
            default_category()
        } else {
            trimmed_of(shortcut.category@)
        },
        r.id == shortcut.id,
        r.target == shortcut.target,
        r.args == shortcut.args,
        r.icon_path == shortcut.icon_path,
        r.hotkey == shortcut.hotkey,
        r.launch_count == shortcut.launch_count,
{
    let name_trimmed = trim(shortcut.name.as_str()).to_owned();
    let category_trimmed = trim(shortcut.category.as_str()).to_owned();
    tidy_for_save(shortcut, name_trimmed.as_str(), category_trimmed.as_str())
}

/// Tidies `shortcut` for saving given its trimmed name and trimmed category:
/// "Untitled" for a blank name, the trimmed category or the default one
/// when that is blank; everything else is kept.
pub fn tidy_for_save(shortcut: Shortcut, trimmed_name: &str, trimmed_category: &str) -> (r: Shortcut)
    ensures
        r.name@ == if trimmed_name@.len() == 0 {
            untitled()
        } else {
            shortcut.name@
        },
        r.category@ == if trimmed_category@.len() == 0 {
            default_category()
        } else {
            trimmed_category@
        },
        r.id == shortcut.id,
        r.target == shortcut.target,
        r.args == shortcut.args,
        r.icon_path == shortcut.icon_path,
        r.hotkey == shortcut.hotkey,
        r.launch_count == shortcut.launch_count,
{
    let mut s = shortcut;
    if trimmed_name.is_empty() {
        s.name = "Untitled".to_owned();
    }
    if trimmed_category.is_empty() {
        s.category = default_category_text();
    } else {
        s.category = trimmed_category.to_owned();
    }
    s
}

/// The hotkey field's text as a shortcut's hotkey: none when empty.
pub fn hotkey_from_input(text: String) -> (r: Option<String>)
    ensures
        text@.len() == 0 ==> r is None,
        text@.len() > 0 ==> r == Some(text),
{
    if text.as_str().is_empty() {
        None
    } else {
        Some(text)
    }
}

/// The category filter for the category chosen in the main window: none
/// for "All".
pub fn category_filter(selected: &str) -> (r: Option<&str>)
    ensures
        selected@ == "All"@ ==> r is None,
        selected@ != "All"@ ==> r == Some(selected),
{
    if same_text(selected, "All") {
        None
    } else {
        Some(selected)
    }
}

/// The status line after launching `name`.
pub fn launched_message(name: &str) -> (r: String)
    ensures
        r@ == "Launched: "@ + name@,
{
    let mut s = String::new();
    s.append("Launched: ");
    s.append(name);
    s
}

/// The status line after failing to launch `name`.
pub fn launch_failed_message(name: &str, error: &LaunchError) -> (r: String)
    ensures
        r@ == "Failed to launch "@ + name@ + ": "@ + error.message_text(),
{
    let mut s = String::new();
    s.append("Failed to launch ");
    s.append(name);
    s.append(": ");
    let m = error.message();
    s.append(m.as_str());
    s
}


/// Moving the selection with the arrow keys keeps a selection that points
/// at a result pointing at a result.
pub proof fn law_selection_stays_on_results(selected: int, len: int)
    requires
        0 <= selected < len,
    ensures
        0 <= (if selected + 1 < len {
            selected + 1
        } else {
            selected
        }) < len,
        0 <= (if selected > 0 {
            selected - 1
        } else {
            0
        }) < len,
{
}


/// Shown by `toggle`, the launcher lists every stored shortcut.
pub proof fn law_shown_launcher_lists_all(s: Seq<Shortcut>, r: Seq<Shortcut>)
    requires
        is_search_result(s, Seq::<char>::empty(), None, r),
    ensures
        r.len() == s.len(),
        forall|j: int| 0 <= j < s.len() ==> r.contains(#[trigger] s[j]),
{
    assert(trim_start_of(Seq::<char>::empty()) == Seq::<char>::empty());
    assert(trim_end_of(Seq::<char>::empty()) == Seq::<char>::empty());
    law_blank_query_finds_all(s, Seq::<char>::empty(), r);
}

} // verus!
