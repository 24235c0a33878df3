//! The list of settings operations.
use crate::components::{Action, ActionView, Event, HandleAction, KeyCode};
use crate::selection::{next_selection, previous_selection, valid_selection};
use vstd::prelude::*;

verus! {

/// A named settings operation.
#[derive(Debug, Clone, Copy)]
pub enum ConfigOption {
    /// Clear the connection history.
    ResetRecent,
    /// Set the retention window of the connection history.
    SetRecentTimeout,
}

/// The operations, in the order listed.
pub open spec fn config_options() -> Seq<ConfigOption> {
    seq![ConfigOption::ResetRecent, ConfigOption::SetRecentTimeout]
}

/// The number of operations listed.
pub const CONFIG_OPTION_COUNT: usize = 2;

impl ConfigOption {
    /// The name under which the operation is listed.
    pub open spec fn label_text(self) -> Seq<char> {
        match self {
            ConfigOption::ResetRecent => "Reset Recent Instances"@,
            ConfigOption::SetRecentTimeout => "Set Recent Timeout"@,
        }
    }

    /// The name under which the operation is listed.
    pub fn label(self) -> (r: String)
        ensures
            r@ == self.label_text(),
    {
        match self {
            ConfigOption::ResetRecent => "Reset Recent Instances".to_owned(),
            ConfigOption::SetRecentTimeout => "Set Recent Timeout".to_owned(),
        }
    }

    /// The operation listed in row `row`.
    pub fn at(row: usize) -> (r: Option<ConfigOption>)
        ensures
            r == (if row < config_options().len() {
                Some(config_options()[row as int])
            } else {
                None
            }),
    {
        if row == 0 {
            Some(ConfigOption::ResetRecent)
        } else if row == 1 {
            Some(ConfigOption::SetRecentTimeout)
        } else {
            None
        }
    }
}

/// The state of a [`ConfigList`].
pub struct ConfigListModel {
    /// The cursor: an index into the operations.
    pub selected: Option<usize>,
}

impl ConfigListModel {
    /// The invariant: the cursor is on one of the operations.
    pub open spec fn wf(self) -> bool {
        valid_selection(self.selected, config_options().len())
    }

    /// The list with the cursor on the first operation.
    pub open spec fn fresh() -> ConfigListModel {
        ConfigListModel { selected: Some(0) }
    }

    /// The cursor moved one row down.
    pub open spec fn next(self) -> ConfigListModel {
        ConfigListModel { selected: next_selection(self.selected, config_options().len()) }
    }

    /// The cursor moved one row up.
    pub open spec fn previous(self) -> ConfigListModel {
        ConfigListModel { selected: previous_selection(self.selected, config_options().len()) }
    }

    /// The operation under the cursor.
    pub open spec fn current(self) -> Option<ConfigOption> {
        match self.selected {
            Some(i) => if i < config_options().len() {
                Some(config_options()[i as int])
            } else {
                None
            },
            None => None,
        }
    }

    /// The list's reaction to one input event.
    pub open spec fn handle(self, event: Event) -> (ConfigListModel, ActionView) {
        match event {
            Event::Key(KeyCode::Char(c)) => if c == 'q' {
                (self, ActionView::Exit)
            } else {
                (self, ActionView::Noop)
            },
            Event::Key(KeyCode::Down) => (self.next(), ActionView::Noop),
            Event::Key(KeyCode::Up) => (self.previous(), ActionView::Noop),
            Event::Key(KeyCode::Right) | Event::Key(KeyCode::Enter) => match self.current() {
                Some(option) => (self, ActionView::ReturnConfig(option)),
                None => (self, ActionView::Noop),
            },
            _ => (self, ActionView::Noop),
        }
    }
}

/// Every event leaves the list in a state that satisfies the invariant.
pub proof fn lemma_config_list_handle_keeps_wf(m: ConfigListModel, event: Event)
    requires
        m.wf(),
    ensures
        m.handle(event).0.wf(),
{
}

/// The list of settings operations with its cursor.
#[derive(Debug)]
pub struct ConfigList {
    selected: Option<usize>,
}

impl View for ConfigList {
    type V = ConfigListModel;

    closed spec fn view(&self) -> ConfigListModel {
        ConfigListModel { selected: self.selected }
    }
}

impl ConfigList {
    /// The list with the cursor on the first operation.
    pub fn new() -> (r: ConfigList)
        ensures
            r@ == ConfigListModel::fresh(),
            r.wf(),
    {
        ConfigList { selected: Some(0) }
    }

    fn next(&mut self)
        requires
            old(self).wf(),
        ensures
            final(self)@ == old(self)@.next(),
            final(self).wf(),
    {
        self.selected = crate::selection::next(self.selected, CONFIG_OPTION_COUNT);
    }

    fn previous(&mut self)
        requires
            old(self).wf(),
        ensures
            final(self)@ == old(self)@.previous(),
            final(self).wf(),
    {
        self.selected = crate::selection::previous(self.selected, CONFIG_OPTION_COUNT);
    }

    /// The operation under the cursor.
    pub fn current(&self) -> (r: Option<ConfigOption>)
        ensures
            r == self@.current(),
    {
        match self.selected {
            Some(i) => ConfigOption::at(i),
            None => None,
        }
    }

    /// The cursor.
    pub fn selected(&self) -> (r: Option<usize>)
        ensures
            r == self@.selected,
    {
        self.selected
    }
}

impl HandleAction for ConfigList {
    open spec fn wf(&self) -> bool {
        self@.wf()
    }

    fn handle_action(&mut self, action: Event) -> (r: Action)
        ensures
            (final(self)@, r@) == old(self)@.handle(action),
    {
        match action {
            Event::Key(key) => match key {
                KeyCode::Char(c) => {
                    if c == 'q' {
                        Action::Exit
                    } else {
                        Action::Noop
                    }
                },
                KeyCode::Down => {
                    self.next();
                    Action::Noop
                },
                KeyCode::Up => {
                    self.previous();
                    Action::Noop
                },
                KeyCode::Right | KeyCode::Enter => match self.current() {
                    Some(option) => Action::ReturnConfig(option),
                    None => Action::Noop,
                },
                _ => Action::Noop,
            },
            _ => Action::Noop,
        }
    }
}

} // verus!
