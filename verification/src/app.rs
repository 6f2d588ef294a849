//! The tabs of the terminal front end.

use vstd::prelude::*;
use vstd::string::StringExecFns;

verus! {

/// One of the three views.
#[derive(Debug, Clone, Copy, PartialEq, Eq, Structural)]
pub enum Tab {
    Main,
    Console,
    Trace,
}

/// What a key asks for.
#[derive(Debug, Clone, Copy, PartialEq, Eq, Structural)]
pub enum KeyAction {
    /// Leave the program.
    Quit,
    /// Show this tab.
    Show(Tab),
    /// Nothing.
    Ignore,
}

/// The tab that follows `tab` when the tab key is pressed.
pub open spec fn spec_next(tab: Tab) -> Tab {
    match tab {
        Tab::Main => Tab::Console,
        Tab::Console => Tab::Trace,
        Tab::Trace => Tab::Main,
    }
}

/// What a pressed key asks for while `active` is shown: `q` quits, `1`, `2`
/// and `3` pick a tab, the tab key moves to the next one.
pub open spec fn spec_key_action(active: Tab, key: Option<char>, is_tab_key: bool) -> KeyAction {
    if is_tab_key {
        KeyAction::Show(spec_next(active))
    } else {
        match key {
            Some(c) => if c == 'q' {
                KeyAction::Quit
            } else if c == '1' {
                KeyAction::Show(Tab::Main)
            } else if c == '2' {
                KeyAction::Show(Tab::Console)
            } else if c == '3' {
                KeyAction::Show(Tab::Trace)
            } else {
                KeyAction::Ignore
            },
            None => KeyAction::Ignore,
        }
    }
}

impl Tab {
    /// The name shown for this tab.
    pub open spec fn spec_name(self) -> Seq<char> {
        match self {
            Tab::Main => "Main"@,
            Tab::Console => "Console"@,
            Tab::Trace => "Trace"@,
        }
    }

    /// The name shown for this tab.
    pub fn name(&self) -> (name: &'static str)
        ensures
            name@ == self.spec_name(),
    {
        match self {
            Tab::Main => "Main",
            Tab::Console => "Console",
            Tab::Trace => "Trace",
        }
    }

    /// The tabs in the order in which they are shown.
    pub fn all() -> (tabs: [Tab; 3])
        ensures
            tabs@ == seq![Tab::Main, Tab::Console, Tab::Trace],
    {
        let tabs = [Tab::Main, Tab::Console, Tab::Trace];
        assert(tabs@ =~= seq![Tab::Main, Tab::Console, Tab::Trace]);
        tabs
    }

    /// The tab that follows this one; after the last comes the first.
    pub fn next(self) -> (tab: Tab)
        ensures
            tab == spec_next(self),
    {
        match self {
            Tab::Main => Tab::Console,
            Tab::Console => Tab::Trace,
            Tab::Trace => Tab::Main,
        }
    }
}

/// Decides what a pressed key asks for. `key` is the character of a
/// character key; `is_tab_key` says that the tab key was pressed.
pub fn key_action(active: Tab, key: Option<char>, is_tab_key: bool) -> (action: KeyAction)
    ensures
        action == spec_key_action(active, key, is_tab_key),
{
    if is_tab_key {
        return KeyAction::Show(active.next());
    }
    match key {
        Some(c) => {
            if c == 'q' {
                KeyAction::Quit
            } else if c == '1' {
                KeyAction::Show(Tab::Main)
            } else if c == '2' {
                KeyAction::Show(Tab::Console)
            } else if c == '3' {
                KeyAction::Show(Tab::Trace)
            } else {
                KeyAction::Ignore
            }
        },
        None => KeyAction::Ignore,
    }
}

/// The label of `tab` in the tab line: in brackets where it is the active
/// one, between blanks where it is not.
pub open spec fn spec_label(tab: Tab, active: Tab) -> Seq<char> {
    if tab == active {
        seq!['['] + tab.spec_name() + seq![']']
    } else {
        seq![' '] + tab.spec_name() + seq![' ']
    }
}

/// The tab line: the labels of all tabs, one blank between two.
pub open spec fn spec_tab_line(active: Tab) -> Seq<char> {
    spec_label(Tab::Main, active) + seq![' '] + spec_label(Tab::Console, active) + seq![' ']
        + spec_label(Tab::Trace, active)
}

/// Writes the tab line.
pub fn render_tabs(active: Tab) -> (line: String)
    ensures
        line@ == spec_tab_line(active),
{
    let tabs = Tab::all();
    let mut line = String::new();
    let mut i: usize = 0;
    while i < 3
        invariant
            i <= 3,
            tabs@ == seq![Tab::Main, Tab::Console, Tab::Trace],
            i == 0 ==> line@ == Seq::<char>::empty(),
            i == 1 ==> line@ == spec_label(Tab::Main, active),
            i == 2 ==> line@ == spec_label(Tab::Main, active) + seq![' '] + spec_label(
                Tab::Console,
                active,
            ),
            i == 3 ==> line@ == spec_tab_line(active),
        decreases 3 - i,
    {
        proof {
            reveal_strlit(" ");
            reveal_strlit("[");
            reveal_strlit("]");
        }
        let ghost before = line@;
        if i > 0 {
            line.append(" ");
        }
        let tab = tabs[i];
        if tab == active {
            line.append("[");
            line.append(tab.name());
            line.append("]");
        } else {
            line.append(" ");
            line.append(tab.name());
            line.append(" ");
        }
        proof {
            let sep = if i > 0 {
                seq![' ']
            } else {
                Seq::<char>::empty()
            };
            assert(" "@ =~= seq![' ']);
            assert("["@ =~= seq!['[']);
            assert("]"@ =~= seq![']']);
            assert(line@ =~= before + sep + spec_label(tab, active));
        }
        i = i + 1;
    }
    line
}

} // verus!
