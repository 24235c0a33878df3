//! The instance selector: the table, the search input and the detail view,
//! with the search mode and the info panel switch.
use super::instance_details::InstanceDetails;
use super::instance_table::{lemma_apply_filter_wf, lemma_handle_keeps_wf, lemma_moves_keep_wf};
use super::instance_table::{InstanceTable, TableModel};
use super::text_input::{InputModel, TextInput};
use super::{Action, ActionView, Event, HandleAction, KeyCode};
use crate::instance::{InstanceInfo, InstanceView};
use vstd::prelude::*;

verus! {

/// The state of an [`InstanceSelection`].
pub struct SelectionModel {
    pub table: TableModel,
    pub search: InputModel,
    /// The record whose details are shown.
    pub details: Option<InstanceView>,
    /// The filter that was last confirmed. While a search is under way the
    /// table may be filtered by the text typed so far instead.
    pub filter: Seq<char>,
    /// Whether input goes to the search input.
    pub search_active: bool,
    /// Whether the details are shown.
    pub info_panel_enabled: bool,
}

impl SelectionModel {
    /// The invariant: the table is filtered by the text in the search
    /// input, and outside a search that text is the confirmed filter.
    pub open spec fn wf(self) -> bool {
        &&& self.table.wf()
        &&& self.search.wf()
        &&& self.table.filter == self.search.value
        &&& !self.search_active ==> self.filter == self.table.filter
    }

    /// The selector for a set of instances, with no filter.
    pub open spec fn fresh(instances: Seq<InstanceView>) -> SelectionModel {
        SelectionModel {
            table: TableModel::loaded(instances, Seq::empty()),
            search: InputModel::empty(Seq::empty()),
            details: None,
            filter: Seq::empty(),
            search_active: false,
            info_panel_enabled: false,
        }
    }

    /// The selector showing another set of instances, the filter kept.
    pub open spec fn update_instances(self, instances: Seq<InstanceView>) -> SelectionModel {
        SelectionModel { table: self.table.replace_items(instances), ..self }
    }

    /// The reaction to an event while a search is under way. Every edit
    /// filters the table by the text typed so far. `Enter` confirms that
    /// text as the filter; `Esc` puts the confirmed filter back; `Up` and
    /// `Down` move the table's cursor and keep the text as the filter. All
    /// three end the search.
    pub open spec fn handle_search(self, event: Event) -> (SelectionModel, ActionView) {
        let (search, answer) = self.search.handle(event);
        let typed = SelectionModel { search, ..self };
        match answer {
            ActionView::Exit => (
                SelectionModel {
                    table: self.table.apply_filter(self.filter),
                    search: search.with_value(self.filter),
                    search_active: false,
                    ..self
                },
                ActionView::Noop,
            ),
            ActionView::Return(text) => (
                SelectionModel {
                    table: self.table.apply_filter(text),
                    filter: text,
                    search_active: false,
                    ..typed
                },
                ActionView::Noop,
            ),
            ActionView::PartialReturn(text) => (
                SelectionModel { table: self.table.apply_filter(text), ..typed },
                ActionView::Noop,
            ),
            ActionView::ReturnWithKey(key) => (
                SelectionModel {
                    table: match key {
                        KeyCode::Up => self.table.previous(),
                        KeyCode::Down => self.table.next(),
                        _ => self.table,
                    },
                    filter: self.table.filter,
                    search_active: false,
                    ..typed
                },
                ActionView::Noop,
            ),
            _ => (typed, ActionView::Noop),
        }
    }

    /// The reaction to an event outside a search: the table handles it.
    /// Its requests to search and to switch the info panel are carried out
    /// here; a newly selected row becomes the target of the details; every
    /// other answer is passed on.
    pub open spec fn handle_table(self, event: Event) -> (SelectionModel, ActionView) {
        let (table, answer) = self.table.handle(event);
        let moved = SelectionModel { table, ..self };
        match answer {
            ActionView::Search => (
                SelectionModel { search_active: true, ..moved },
                ActionView::Noop,
            ),
            ActionView::ToggleInfoPanel => (
                SelectionModel { info_panel_enabled: !self.info_panel_enabled, ..moved },
                ActionView::Noop,
            ),
            ActionView::Select(item) => (
                SelectionModel { details: Some(item), ..moved },
                ActionView::Select(item),
            ),
            other => (moved, other),
        }
    }

    /// The selector's reaction to one input event.
    pub open spec fn handle(self, event: Event) -> (SelectionModel, ActionView) {
        if self.search_active {
            self.handle_search(event)
        } else {
            self.handle_table(event)
        }
    }
}

/// Every event leaves the selector in a state that satisfies the invariant.
pub proof fn lemma_selection_handle_keeps_wf(m: SelectionModel, event: Event)
    requires
        m.wf(),
    ensures
        m.handle(event).0.wf(),
        m.handle(event).0.table.items == m.table.items,
{
    lemma_handle_keeps_wf(m.table, event);
    lemma_moves_keep_wf(m.table);
    lemma_apply_filter_wf(m.table, m.filter);
    lemma_apply_filter_wf(m.table, m.search.handle(event).0.value);
}

/// Cancelling a search puts the table back under the filter that was
/// confirmed before, whatever was typed in between.
pub proof fn lemma_cancel_restores_filter(m: SelectionModel)
    requires
        m.search_active,
    ensures
        m.handle(Event::Key(KeyCode::Esc)).0.table == m.table.apply_filter(m.filter),
        m.handle(Event::Key(KeyCode::Esc)).0.filter == m.filter,
        !m.handle(Event::Key(KeyCode::Esc)).0.search_active,
{
}

/// Switching the info panel changes nothing else: the table, its cursor,
/// the search and the details stay as they are.
pub proof fn lemma_info_panel_toggle_only_flips(m: SelectionModel)
    requires
        !m.search_active,
    ensures
        m.handle(Event::Key(KeyCode::Char('i'))).0 == (SelectionModel {
            info_panel_enabled: !m.info_panel_enabled,
            ..m
        }),
{
}

/// The instance selector.
#[derive(Debug)]
pub struct InstanceSelection {
    instances_table_component: InstanceTable,
    search_component: TextInput,
    instance_details: InstanceDetails,
    filter: String,
    search_active: bool,
    info_panel_enabled: bool,
}

impl View for InstanceSelection {
    type V = SelectionModel;

    closed spec fn view(&self) -> SelectionModel {
        SelectionModel {
            table: self.instances_table_component@,
            search: self.search_component@,
            details: self.instance_details@,
            filter: self.filter@,
            search_active: self.search_active,
            info_panel_enabled: self.info_panel_enabled,
        }
    }
}

impl Default for InstanceSelection {
    /// A selector without instances.
    fn default() -> (r: InstanceSelection)
        ensures
            r@ == SelectionModel::fresh(Seq::empty()),
            r.wf(),
    {
        let instances: Vec<InstanceInfo> = Vec::new();
        assert(instances.deep_view() =~= Seq::empty());
        InstanceSelection::new(instances)
    }
}

impl InstanceSelection {
    /// A selector for `instances`, with no filter.
    pub fn new(instances: Vec<InstanceInfo>) -> (r: InstanceSelection)
        ensures
            r@ == SelectionModel::fresh(instances.deep_view()),
            r.wf(),
    {
        let instances_table_component = InstanceTable::with_items(instances);
        InstanceSelection {
            instances_table_component,
            search_component: TextInput::default(),
            instance_details: InstanceDetails::default(),
            filter: String::new(),
            search_active: false,
            info_panel_enabled: false,
        }
    }

    /// Shows `instances` instead, under the filter that is in force.
    pub fn update_instances(&mut self, instances: Vec<InstanceInfo>)
        requires
            old(self).wf(),
        ensures
            final(self)@ == old(self)@.update_instances(instances.deep_view()),
            final(self).wf(),
    {
        self.instances_table_component.replace_items(instances);
    }

    /// The table of instances.
    pub fn table(&self) -> (r: &InstanceTable)
        ensures
            r@ == self@.table,
    {
        &self.instances_table_component
    }

    /// The search input.
    pub fn search(&self) -> (r: &TextInput)
        ensures
            r@ == self@.search,
    {
        &self.search_component
    }

    /// The detail view.
    pub fn details(&self) -> (r: &InstanceDetails)
        ensures
            r@ == self@.details,
    {
        &self.instance_details
    }

    /// Whether input goes to the search input.
    pub fn is_search_active(&self) -> (r: bool)
        ensures
            r == self@.search_active,
    {
        self.search_active
    }

    /// Whether the details are shown.
    pub fn is_info_panel_enabled(&self) -> (r: bool)
        ensures
            r == self@.info_panel_enabled,
    {
        self.info_panel_enabled
    }
}

impl HandleAction for InstanceSelection {
    open spec fn wf(&self) -> bool {
        self@.wf()
    }

    fn handle_action(&mut self, action: Event) -> (r: Action)
        ensures
            (final(self)@, r@) == old(self)@.handle(action),
    {
        if self.search_active {
            let answer = self.search_component.handle_action(action);
            match answer {
                Action::Exit => {
                    self.instances_table_component.apply_filter(self.filter.clone());
                    self.search_component.set_value(self.filter.clone());
                    self.search_active = false;
                },
                Action::Return(search) => {
                    self.filter = search.clone();
                    self.instances_table_component.apply_filter(search);
                    self.search_active = false;
                },
                Action::PartialReturn(search) => {
                    self.instances_table_component.apply_filter(search);
                },
                Action::ReturnWithKey(key) => {
                    match key {
                        KeyCode::Up => {
                            self.instances_table_component.previous();
                        },
                        KeyCode::Down => {
                            self.instances_table_component.next();
                        },
                        _ => {},
                    }
                    self.filter = self.instances_table_component.filter().clone();
                    self.search_active = false;
                },
                _ => {},
            }
            Action::Noop
        } else {
            let answer = self.instances_table_component.handle_action(action);
            match answer {
                Action::Search => {
                    self.search_active = true;
                    Action::Noop
                },
                Action::ToggleInfoPanel => {
                    self.info_panel_enabled = !self.info_panel_enabled;
                    Action::Noop
                },
                Action::Select(item) => {
                    self.instance_details.set_instance(item.clone());
                    Action::Select(item)
                },
                other => other,
            }
        }
    }
}

} // verus!
