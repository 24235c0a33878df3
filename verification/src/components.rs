//! The interactive components and what they exchange: an input event goes
//! in, an [`Action`] comes out.
use crate::instance::{InstanceInfo, InstanceView};
use config_panel::config_list::ConfigOption;
use vstd::prelude::*;

pub mod config_panel;
pub mod instance_details;
pub mod instance_selection;
pub mod instance_table;
pub mod region_list;
pub mod text_input;

verus! {

/// A symbolic key.
#[derive(Debug, Clone, Copy)]
pub enum KeyCode {
    Backspace,
    Enter,
    Left,
    Right,
    Up,
    Down,
    Home,
    End,
    Esc,
    Char(char),
    /// Any key that no component reacts to.
    Other,
}

/// One discrete input event.
#[derive(Debug, Clone, Copy)]
pub enum Event {
    Key(KeyCode),
    /// An event of a kind that the components ignore.
    Other,
}

/// The outcome of handling one input event: nothing, a request to change
/// screens, or a request to change state.
#[derive(Debug)]
pub enum Action {
    Noop,
    Exit,
    Return(String),
    ReturnWithKey(KeyCode),
    ReturnInstance(InstanceInfo),
    ReturnConfig(ConfigOption),
    OpenConfig,
    PartialReturn(String),
    Search,
    ToggleInfoPanel,
    Select(InstanceInfo),
    Hide(String),
    Reset,
    ToggleFavorite(String),
}

/// An [`Action`] with its payload as plain values.
pub enum ActionView {
    Noop,
    Exit,
    Return(Seq<char>),
    ReturnWithKey(KeyCode),
    ReturnInstance(InstanceView),
    ReturnConfig(ConfigOption),
    OpenConfig,
    PartialReturn(Seq<char>),
    Search,
    ToggleInfoPanel,
    Select(InstanceView),
    Hide(Seq<char>),
    Reset,
    ToggleFavorite(Seq<char>),
}

impl View for Action {
    type V = ActionView;

    open spec fn view(&self) -> ActionView {
        match *self {
            Action::Noop => ActionView::Noop,
            Action::Exit => ActionView::Exit,
            Action::Return(s) => ActionView::Return(s@),
            Action::ReturnWithKey(k) => ActionView::ReturnWithKey(k),
            Action::ReturnInstance(i) => ActionView::ReturnInstance(i@),
            Action::ReturnConfig(c) => ActionView::ReturnConfig(c),
            Action::OpenConfig => ActionView::OpenConfig,
            Action::PartialReturn(s) => ActionView::PartialReturn(s@),
            Action::Search => ActionView::Search,
            Action::ToggleInfoPanel => ActionView::ToggleInfoPanel,
            Action::Select(i) => ActionView::Select(i@),
            Action::Hide(s) => ActionView::Hide(s@),
            Action::Reset => ActionView::Reset,
            Action::ToggleFavorite(s) => ActionView::ToggleFavorite(s@),
        }
    }
}

/// A component that consumes one input event and answers with one action.
pub trait HandleAction {
    /// The component's invariant. Constructors establish it and every
    /// method keeps it.
    spec fn wf(&self) -> bool;

    fn handle_action(&mut self, action: Event) -> (r: Action)
        requires
            old(self).wf(),
        ensures
            final(self).wf(),
    ;
}

} // verus!
