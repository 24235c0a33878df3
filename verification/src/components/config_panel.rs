//! The settings panel: the list of operations, and a text input for the
//! operations that need a value.
use super::text_input::{InputModel, TextInput};
use super::{Action, ActionView, Event, HandleAction};
use crate::app::config::{Config, ConfigView};
use crate::text::{decimal_of, decimal_text, parse_u64, parsed_u64};
use config_list::{ConfigList, ConfigListModel, ConfigOption};
use vstd::prelude::*;

pub mod config_list;

verus! {

/// The state of a [`ConfigPanel`].
pub struct PanelModel {
    pub list: ConfigListModel,
    pub input: InputModel,
    /// Whether a value is being entered.
    pub input_active: bool,
    /// The operation that the value is entered for.
    pub modifying_action: Option<ConfigOption>,
    /// The outcome of the last operation, until it has been shown once.
    pub last_operation_success: Option<bool>,
}

impl PanelModel {
    /// The invariant: the list and the input satisfy theirs.
    pub open spec fn wf(self) -> bool {
        &&& self.list.wf()
        &&& self.input.wf()
    }

    /// The panel as it is first shown.
    pub open spec fn fresh() -> PanelModel {
        PanelModel {
            list: ConfigListModel::fresh(),
            input: InputModel::empty("Value: "@),
            input_active: false,
            modifying_action: None,
            last_operation_success: None,
        }
    }

    /// The panel after the value `text` was confirmed, together with the
    /// settings and the answer. For the retention window the text has to be
    /// a non-negative integer: then it is stored, the outcome is a success,
    /// and the answer names the operation so that the settings get
    /// persisted. Otherwise the outcome is a failure and the settings stay
    /// as they are. Either way the panel is back at the list.
    pub open spec fn confirm(self, text: Seq<char>, config: ConfigView) -> (
        PanelModel,
        ConfigView,
        ActionView,
    ) {
        let closed = PanelModel { input_active: false, ..self };
        match self.modifying_action {
            Some(ConfigOption::SetRecentTimeout) => match parsed_u64(text) {
                Some(timeout) => (
                    PanelModel { last_operation_success: Some(true), ..closed },
                    config.with_recent_timeout(timeout),
                    ActionView::ReturnConfig(ConfigOption::SetRecentTimeout),
                ),
                None => (
                    PanelModel { last_operation_success: Some(false), ..closed },
                    config,
                    ActionView::Noop,
                ),
            },
            _ => (closed, config, ActionView::Noop),
        }
    }

    /// The panel after `option` was chosen from the list. Clearing the
    /// history needs no value: the answer names the operation, for the
    /// owner to carry out. Setting the retention window opens the input,
    /// holding the current window.
    pub open spec fn choose_option(self, option: ConfigOption, config: ConfigView) -> (
        PanelModel,
        ConfigView,
        ActionView,
    ) {
        match option {
            ConfigOption::ResetRecent => (
                self,
                config,
                ActionView::ReturnConfig(ConfigOption::ResetRecent),
            ),
            ConfigOption::SetRecentTimeout => (
                PanelModel {
                    modifying_action: Some(ConfigOption::SetRecentTimeout),
                    input_active: true,
                    input: self.input.with_value(decimal_of(config.recent_timeout as nat)),
                    ..self
                },
                config,
                ActionView::Noop,
            ),
        }
    }

    /// The panel's reaction to one input event, with the settings it works
    /// on: the next state, the settings, and the answer.
    pub open spec fn handle(self, event: Event, config: ConfigView) -> (
        PanelModel,
        ConfigView,
        ActionView,
    ) {
        if self.input_active {
            let (input, answer) = self.input.handle(event);
            let typed = PanelModel { input, ..self };
            match answer {
                ActionView::Exit => (
                    PanelModel { input_active: false, ..typed },
                    config,
                    ActionView::Noop,
                ),
                ActionView::Return(text) => typed.confirm(text, config),
                _ => (typed, config, ActionView::Noop),
            }
        } else {
            let (list, answer) = self.list.handle(event);
            let moved = PanelModel { list, ..self };
            match answer {
                ActionView::ReturnConfig(option) => moved.choose_option(option, config),
                other => (moved, config, other),
            }
        }
    }

    /// The panel with the outcome of an operation that the owner carried
    /// out.
    pub open spec fn operation_finished(self, success: bool) -> PanelModel {
        PanelModel { last_operation_success: Some(success), ..self }
    }

    /// The banner that the next frame shows in place of the help line, and
    /// the panel after that frame: the outcome of the last operation is
    /// shown once and then forgotten. While a value is being entered no
    /// banner is shown and the outcome is kept.
    pub open spec fn take_banner(self) -> (PanelModel, Option<bool>) {
        if self.input_active {
            (self, None)
        } else {
            (PanelModel { last_operation_success: None, ..self }, self.last_operation_success)
        }
    }
}

/// Every event leaves the panel in a state that satisfies the invariant.
pub proof fn lemma_panel_handle_keeps_wf(m: PanelModel, event: Event, config: ConfigView)
    requires
        m.wf(),
    ensures
        m.handle(event, config).0.wf(),
{
}

/// A value that is no non-negative integer is rejected: the outcome is a
/// failure and the settings are unchanged.
pub proof fn lemma_invalid_timeout_is_rejected(m: PanelModel, text: Seq<char>, config: ConfigView)
    requires
        m.modifying_action == Some(ConfigOption::SetRecentTimeout),
        parsed_u64(text) is None,
    ensures
        m.confirm(text, config).0.last_operation_success == Some(false),
        m.confirm(text, config).1 == config,
        !m.confirm(text, config).0.input_active,
{
}

/// The banner is shown once: after a frame without the input no outcome is
/// left to show.
pub proof fn lemma_banner_is_shown_once(m: PanelModel)
    requires
        !m.input_active,
    ensures
        m.take_banner().1 == m.last_operation_success,
        m.take_banner().0.take_banner().1 is None,
{
}

/// The settings panel.
#[derive(Debug)]
pub struct ConfigPanel {
    config_list: ConfigList,
    input_component: TextInput,
    input_active: bool,
    modifying_action: Option<ConfigOption>,
    last_operation_success: Option<bool>,
}

impl View for ConfigPanel {
    type V = PanelModel;

    closed spec fn view(&self) -> PanelModel {
        PanelModel {
            list: self.config_list@,
            input: self.input_component@,
            input_active: self.input_active,
            modifying_action: self.modifying_action,
            last_operation_success: self.last_operation_success,
        }
    }
}

impl ConfigPanel {
    /// The invariant of the panel.
    pub open spec fn wf(&self) -> bool {
        self@.wf()
    }

    /// The panel as it is first shown.
    pub fn new() -> (r: ConfigPanel)
        ensures
            r@ == PanelModel::fresh(),
            r.wf(),
    {
        ConfigPanel {
            config_list: ConfigList::new(),
            input_component: TextInput::new("Value: ".to_owned()),
            input_active: false,
            modifying_action: None,
            last_operation_success: None,
        }
    }

    /// Handles one input event. The settings are changed in place; an
    /// answer that names an operation asks the owner to carry it out.
    pub fn handle_action(&mut self, action: Event, config: &mut Config) -> (r: Action)
        requires
            old(self).wf(),
            old(config).wf(),
        ensures
            final(self).wf(),
            final(config).wf(),
            (final(self)@, final(config)@, r@) == old(self)@.handle(action, old(config)@),
    {
        if self.input_active {
            let answer = self.input_component.handle_action(action);
            match answer {
                Action::Exit => {
                    self.input_active = false;
                    Action::Noop
                },
                Action::Return(text) => {
                    self.input_active = false;
                    match self.modifying_action {
                        Some(ConfigOption::SetRecentTimeout) => match parse_u64(text.as_str()) {
                            Some(timeout) => {
                                config.set_recent_timeout(timeout);
                                self.last_operation_success = Some(true);
                                Action::ReturnConfig(ConfigOption::SetRecentTimeout)
                            },
                            None => {
                                self.last_operation_success = Some(false);
                                Action::Noop
                            },
                        },
                        _ => Action::Noop,
                    }
                },
                _ => Action::Noop,
            }
        } else {
            let answer = self.config_list.handle_action(action);
            match answer {
                Action::ReturnConfig(option) => match option {
                    ConfigOption::ResetRecent => Action::ReturnConfig(ConfigOption::ResetRecent),
                    ConfigOption::SetRecentTimeout => {
                        self.modifying_action = Some(ConfigOption::SetRecentTimeout);
                        self.input_active = true;
                        let current_value = config.get_recent_timeout();
                        self.input_component.set_value(decimal_text(current_value));
                        Action::Noop
                    },
                },
                other => other,
            }
        }
    }

    /// Takes note of the outcome of an operation that the owner carried
    /// out.
    pub fn operation_finished(&mut self, success: bool)
        ensures
            final(self)@ == old(self)@.operation_finished(success),
    {
        self.last_operation_success = Some(success);
    }

    /// The banner for the frame that is drawn next: `Some(true)` for a
    /// success, `Some(false)` for a failure, `None` for the help line.
    pub fn take_banner(&mut self) -> (r: Option<bool>)
        ensures
            (final(self)@, r) == old(self)@.take_banner(),
    {
        if self.input_active {
            None
        } else {
            let banner = self.last_operation_success;
            self.last_operation_success = None;
            banner
        }
    }

    /// Whether a value is being entered.
    pub fn is_input_active(&self) -> (r: bool)
        ensures
            r == self@.input_active,
    {
        self.input_active
    }

    /// The list of operations.
    pub fn config_list(&self) -> (r: &ConfigList)
        ensures
            r@ == self@.list,
    {
        &self.config_list
    }

    /// The input for the value of an operation.
    pub fn input_component(&self) -> (r: &TextInput)
        ensures
            r@ == self@.input,
    {
        &self.input_component
    }
}

} // verus!
