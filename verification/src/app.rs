//! The screen controller: which screen is active, and what each input
//! event does to it. The controller decides; drawing, reading events,
//! fetching instances and writing the stores is left to its owner, which
//! is told what to do by a [`Command`].
use crate::components::config_panel::config_list::ConfigOption;
use crate::components::config_panel::{lemma_panel_handle_keeps_wf, ConfigPanel, PanelModel};
use crate::components::instance_selection::lemma_selection_handle_keeps_wf;
use crate::components::instance_selection::{InstanceSelection, SelectionModel};
use crate::components::instance_table::{lemma_apply_filter_wf, TableModel};
use crate::components::region_list::{lemma_region_handle_keeps_wf, lemma_region_updates_keep_wf};
use crate::components::region_list::{lemma_with_items_wf, RegionList, RegionListModel};
use crate::components::{Action, ActionView, Event, HandleAction};
use crate::instance::{InstanceInfo, InstanceView};
use config::{lemma_changes_keep_wf, lemma_flags_are_independent};
use config::{Config, ConfigView, FlagChange};
use vstd::prelude::*;

pub mod config;

verus! {

/// The screen that is active.
#[derive(Debug, Clone, Copy)]
pub enum AppStatus {
    RegionSelectState,
    MainScreen,
    ConfigPanelState,
}

/// Why a run ended without an instance.
#[derive(Debug, Clone, Copy)]
pub enum RuntimeError {
    /// The user chose to quit. This is no failure.
    UserExit,
}

/// What the owner of the controller has to do once an event was handled.
#[derive(Debug)]
pub enum Command {
    /// Nothing: draw the screen again and read the next event.
    Continue,
    /// Write the settings to their store. A failure ends the run.
    PersistConfig,
    /// Fetch the instances of this region and hand them to
    /// [`App::instances_fetched`]. A failure ends the run.
    FetchInstances(String),
    /// Clear the history store and report the outcome to
    /// [`App::history_reset_finished`].
    ResetHistory,
    /// End the run: with the instance that was chosen, or because the user
    /// quit.
    Finish(Result<InstanceInfo, RuntimeError>),
}

/// A [`Command`] with its payload as plain values.
pub enum CommandView {
    Continue,
    PersistConfig,
    FetchInstances(Seq<char>),
    ResetHistory,
    Finish(Result<InstanceView, RuntimeError>),
}

impl View for Command {
    type V = CommandView;

    open spec fn view(&self) -> CommandView {
        match *self {
            Command::Continue => CommandView::Continue,
            Command::PersistConfig => CommandView::PersistConfig,
            Command::FetchInstances(region) => CommandView::FetchInstances(region@),
            Command::ResetHistory => CommandView::ResetHistory,
            Command::Finish(Ok(instance)) => CommandView::Finish(Ok(instance@)),
            Command::Finish(Err(e)) => CommandView::Finish(Err(e)),
        }
    }
}

/// The state of the controller.
pub struct AppModel {
    pub config: ConfigView,
    pub config_panel: PanelModel,
    pub region_select: RegionListModel,
    pub status: AppStatus,
    pub instance_selection: SelectionModel,
}

impl AppModel {
    /// The invariant: every screen satisfies its own, and the region
    /// selector agrees with the settings: it lists the regions that are not
    /// hidden, each once, and marks the favorites.
    pub open spec fn wf(self) -> bool {
        &&& self.config.wf()
        &&& self.config_panel.wf()
        &&& self.region_select.wf()
        &&& self.instance_selection.wf()
        &&& self.region_select.favorites == self.config.favorite_names()
        &&& self.region_select.items.to_multiset() == self.config.visible_names().to_multiset()
    }

    /// The controller at start-up: the region selector is active and lists
    /// the visible regions of the settings.
    pub open spec fn start(config: ConfigView) -> AppModel {
        AppModel {
            config,
            config_panel: PanelModel::fresh(),
            region_select: RegionListModel::with_items(config.visible_names()).set_favorites(
                config.favorite_names(),
            ),
            status: AppStatus::RegionSelectState,
            instance_selection: SelectionModel::fresh(Seq::empty()),
        }
    }

    /// The reaction to an event while the region selector is active.
    /// Hiding, resetting and marking a favorite change the settings, bring
    /// the list up to date and have the settings persisted. Confirming a
    /// region asks for its instances; the selector stays active until they
    /// arrive.
    pub open spec fn handle_region_select(self, event: Event) -> (AppModel, CommandView) {
        let (region_select, answer) = self.region_select.handle(event);
        let moved = AppModel { region_select, ..self };
        match answer {
            ActionView::Exit => (moved, CommandView::Finish(Err(RuntimeError::UserExit))),
            ActionView::Return(region) => (moved, CommandView::FetchInstances(region)),
            ActionView::Hide(region) => {
                let config = self.config.hide_region(region);
                (
                    AppModel {
                        config,
                        region_select: region_select.update_items(config.visible_names()),
                        ..self
                    },
                    CommandView::PersistConfig,
                )
            },
            ActionView::Reset => {
                let config = self.config.reset_hidden_regions();
                (
                    AppModel {
                        config,
                        region_select: region_select.update_items(config.visible_names()),
                        ..self
                    },
                    CommandView::PersistConfig,
                )
            },
            ActionView::ToggleFavorite(region) => {
                let config = self.config.toggle_favorite_region(region);
                (
                    AppModel {
                        config,
                        region_select: region_select.set_favorites(config.favorite_names()),
                        ..self
                    },
                    CommandView::PersistConfig,
                )
            },
            ActionView::OpenConfig => (
                AppModel { status: AppStatus::ConfigPanelState, ..moved },
                CommandView::Continue,
            ),
            _ => (moved, CommandView::Continue),
        }
    }

    /// The reaction to an event while the instance selector is active.
    /// Leaving it goes back to the region selector; confirming a row ends
    /// the run with that instance.
    pub open spec fn handle_main_screen(self, event: Event) -> (AppModel, CommandView) {
        let (instance_selection, answer) = self.instance_selection.handle(event);
        let moved = AppModel { instance_selection, ..self };
        match answer {
            ActionView::Exit => (
                AppModel { status: AppStatus::RegionSelectState, ..moved },
                CommandView::Continue,
            ),
            ActionView::ReturnInstance(instance) => (moved, CommandView::Finish(Ok(instance))),
            _ => (moved, CommandView::Continue),
        }
    }

    /// The reaction to an event while the settings panel is active.
    /// Leaving it goes back to the region selector. An operation that the
    /// panel names is carried out by the owner: the history is cleared, or
    /// the settings, already changed, are persisted.
    pub open spec fn handle_config_panel(self, event: Event) -> (AppModel, CommandView) {
        let (config_panel, config, answer) = self.config_panel.handle(event, self.config);
        let moved = AppModel { config_panel, config, ..self };
        match answer {
            ActionView::Exit => (
                AppModel { status: AppStatus::RegionSelectState, ..moved },
                CommandView::Continue,
            ),
            ActionView::ReturnConfig(ConfigOption::ResetRecent) => (
                moved,
                CommandView::ResetHistory,
            ),
            ActionView::ReturnConfig(ConfigOption::SetRecentTimeout) => (
                moved,
                CommandView::PersistConfig,
            ),
            _ => (moved, CommandView::Continue),
        }
    }

    /// The controller's reaction to one input event: the event goes to the
    /// active screen.
    pub open spec fn handle(self, event: Event) -> (AppModel, CommandView) {
        match self.status {
            AppStatus::RegionSelectState => self.handle_region_select(event),
            AppStatus::MainScreen => self.handle_main_screen(event),
            AppStatus::ConfigPanelState => self.handle_config_panel(event),
        }
    }

    /// The controller once the instances of the confirmed region have
    /// arrived: the instance selector shows them and is active.
    pub open spec fn instances_fetched(self, instances: Seq<InstanceView>) -> AppModel {
        AppModel {
            instance_selection: self.instance_selection.update_instances(instances),
            status: AppStatus::MainScreen,
            ..self
        }
    }

    /// The controller once the history store was cleared, or could not be.
    pub open spec fn history_reset_finished(self, success: bool) -> AppModel {
        AppModel { config_panel: self.config_panel.operation_finished(success), ..self }
    }

    /// The tab that is marked in the header: the first for the region
    /// selector, the second for the instance selector, none for the
    /// settings panel.
    pub open spec fn selected_tab(self) -> Option<usize> {
        match self.status {
            AppStatus::RegionSelectState => Some(0),
            AppStatus::MainScreen => Some(1),
            AppStatus::ConfigPanelState => None,
        }
    }
}

/// The controller starts in a state that satisfies the invariant.
pub proof fn lemma_start_wf(config: ConfigView)
    requires
        config.wf(),
        config.regions.len() <= usize::MAX,
    ensures
        AppModel::start(config).wf(),
{
    broadcast use vstd::seq_lib::group_filter_ensures;

    let listed = RegionListModel::with_items(config.visible_names());
    lemma_with_items_wf(config.visible_names());
    lemma_region_updates_keep_wf(listed, Seq::empty(), config.favorite_names());
    lemma_apply_filter_wf(TableModel::loaded(Seq::empty(), Seq::empty()), Seq::empty());
}

/// Every event leaves the controller in a state that satisfies the
/// invariant. In particular the region selector keeps listing exactly the
/// regions that the settings do not hide: a region that was hidden is gone
/// from the list at once, and after a reset it is listed again.
pub proof fn lemma_handle_keeps_wf(m: AppModel, event: Event)
    requires
        m.wf(),
        m.config.regions.len() <= usize::MAX,
    ensures
        m.handle(event).0.wf(),
        m.handle(event).0.config.regions.len() == m.config.regions.len(),
{
    broadcast use vstd::seq_lib::group_filter_ensures;

    match m.status {
        AppStatus::RegionSelectState => {
            let (region_select, answer) = m.region_select.handle(event);
            lemma_region_handle_keeps_wf(m.region_select, event);
            match answer {
                ActionView::Hide(region) => {
                    let config = m.config.hide_region(region);
                    lemma_changes_keep_wf(m.config, region, FlagChange::Hide);
                    lemma_flags_are_independent(m.config, region, false);
                    lemma_region_updates_keep_wf(
                        region_select,
                        config.visible_names(),
                        Seq::empty(),
                    );
                },
                ActionView::Reset => {
                    let config = m.config.reset_hidden_regions();
                    lemma_changes_keep_wf(m.config, Seq::empty(), FlagChange::Hide);
                    lemma_flags_are_independent(m.config, Seq::empty(), false);
                    lemma_region_updates_keep_wf(
                        region_select,
                        config.visible_names(),
                        Seq::empty(),
                    );
                },
                ActionView::ToggleFavorite(region) => {
                    let config = m.config.toggle_favorite_region(region);
                    lemma_changes_keep_wf(m.config, region, FlagChange::ToggleFavorite);
                    lemma_flags_are_independent(m.config, region, false);
                    lemma_region_updates_keep_wf(
                        region_select,
                        Seq::empty(),
                        config.favorite_names(),
                    );
                },
                _ => {},
            }
        },
        AppStatus::MainScreen => {
            lemma_selection_handle_keeps_wf(m.instance_selection, event);
        },
        AppStatus::ConfigPanelState => {
            lemma_panel_handle_keeps_wf(m.config_panel, event, m.config);
        },
    }
}

/// Hiding the region under the cursor takes it off the list at once.
pub proof fn lemma_hidden_region_leaves_list(m: AppModel, event: Event, region: Seq<char>)
    requires
        m.wf(),
        m.config.regions.len() <= usize::MAX,
        m.status is RegionSelectState,
        m.region_select.handle(event).1 == ActionView::Hide(region),
    ensures
        !m.handle(event).0.region_select.items.contains(region),
        !m.handle(event).0.config.visible_names().contains(region),
        m.handle(event).1 is PersistConfig,
{
    let after = m.handle(event).0;
    lemma_handle_keeps_wf(m, event);
    config::lemma_hide_and_reset(m.config, region);
    vstd::seq_lib::to_multiset_contains(after.region_select.items, region);
    vstd::seq_lib::to_multiset_contains(after.config.visible_names(), region);
}

/// Taking instances in and taking note of an outcome keep the invariant.
pub proof fn lemma_reports_keep_wf(m: AppModel, instances: Seq<InstanceView>, success: bool)
    requires
        m.wf(),
        instances.len() <= usize::MAX,
    ensures
        m.instances_fetched(instances).wf(),
        m.history_reset_finished(success).wf(),
{
    lemma_apply_filter_wf(
        TableModel { items: instances, ..m.instance_selection.table },
        m.instance_selection.table.filter,
    );
}

/// The screen changes only as the transitions allow: from the region
/// selector to the settings panel, and from the settings panel and the
/// instance selector back to the region selector. The instance selector is
/// entered when instances arrive, not by an event.
pub proof fn lemma_screen_transitions(m: AppModel, event: Event)
    ensures
        match (m.status, m.handle(event).0.status) {
            (AppStatus::RegionSelectState, AppStatus::RegionSelectState) => true,
            (AppStatus::RegionSelectState, AppStatus::ConfigPanelState) => true,
            (AppStatus::MainScreen, AppStatus::MainScreen) => true,
            (AppStatus::MainScreen, AppStatus::RegionSelectState) => true,
            (AppStatus::ConfigPanelState, AppStatus::ConfigPanelState) => true,
            (AppStatus::ConfigPanelState, AppStatus::RegionSelectState) => true,
            _ => false,
        },
        m.instances_fetched(Seq::empty()).status is MainScreen,
{
}

/// A run ends with an instance only from the instance selector, and then
/// with the record under the table's cursor; it ends with a user exit only
/// from the region selector.
pub proof fn lemma_finish(m: AppModel, event: Event)
    requires
        m.handle(event).1 is Finish,
    ensures
        m.handle(event).1->Finish_0 is Ok ==> m.status is MainScreen
            && m.instance_selection.table.current() == Some(m.handle(event).1->Finish_0->Ok_0),
        m.handle(event).1->Finish_0 is Err ==> m.status is RegionSelectState,
{
}

/// The screen controller.
#[derive(Debug)]
pub struct App {
    config: Config,
    config_panel: ConfigPanel,
    region_select_component: RegionList,
    status: AppStatus,
    instance_selection_component: InstanceSelection,
}

impl View for App {
    type V = AppModel;

    closed spec fn view(&self) -> AppModel {
        AppModel {
            config: self.config@,
            config_panel: self.config_panel@,
            region_select: self.region_select_component@,
            status: self.status,
            instance_selection: self.instance_selection_component@,
        }
    }
}

impl App {
    /// The invariant of the controller.
    pub closed spec fn wf(&self) -> bool {
        &&& self.config.wf()
        &&& self@.wf()
    }

    /// The controller at start-up, working on `config`.
    pub fn new(config: Config) -> (r: App)
        requires
            config.wf(),
        ensures
            r.wf(),
            r@ == AppModel::start(config@),
    {
        let mut region_select = RegionList::with_items(config.get_visible_regions());
        region_select.set_favorites(config.get_favorite_regions());
        proof {
            config.lemma_view_wf();
            config.lemma_view_fits();
            lemma_start_wf(config@);
        }
        App {
            config,
            config_panel: ConfigPanel::new(),
            region_select_component: region_select,
            status: AppStatus::RegionSelectState,
            instance_selection_component: InstanceSelection::default(),
        }
    }

    /// Handles one input event on the active screen and says what is to be
    /// done next.
    pub fn handle_event(&mut self, event: Event) -> (r: Command)
        requires
            old(self).wf(),
        ensures
            final(self).wf(),
            (final(self)@, r@) == old(self)@.handle(event),
    {
        proof {
            self.config.lemma_view_wf();
            self.config.lemma_view_fits();
            lemma_handle_keeps_wf(self@, event);
        }
        match self.status {
            AppStatus::RegionSelectState => {
                let action = self.region_select_component.handle_action(event);
                let command = match action {
                    Action::Exit => Command::Finish(Err(RuntimeError::UserExit)),
                    Action::Return(region) => Command::FetchInstances(region),
                    Action::Hide(region) => {
                        self.config.hide_region(region);
                        self.region_select_component.update_items(
                            self.config.get_visible_regions(),
                        );
                        Command::PersistConfig
                    },
                    Action::Reset => {
                        self.config.reset_hidden_regions();
                        self.region_select_component.update_items(
                            self.config.get_visible_regions(),
                        );
                        Command::PersistConfig
                    },
                    Action::ToggleFavorite(region) => {
                        self.config.toggle_favorite_region(region);
                        self.region_select_component.set_favorites(
                            self.config.get_favorite_regions(),
                        );
                        Command::PersistConfig
                    },
                    Action::OpenConfig => {
                        self.status = AppStatus::ConfigPanelState;
                        Command::Continue
                    },
                    _ => Command::Continue,
                };
                proof {
                    self.config.lemma_view_wf();
                }
                command
            },
            AppStatus::MainScreen => {
                let action = self.instance_selection_component.handle_action(event);
                match action {
                    Action::Exit => {
                        self.status = AppStatus::RegionSelectState;
                        Command::Continue
                    },
                    Action::ReturnInstance(instance) => Command::Finish(Ok(instance)),
                    _ => Command::Continue,
                }
            },
            AppStatus::ConfigPanelState => {
                let action = self.config_panel.handle_action(event, &mut self.config);
                proof {
                    self.config.lemma_view_wf();
                }
                match action {
                    Action::Exit => {
                        self.status = AppStatus::RegionSelectState;
                        Command::Continue
                    },
                    Action::ReturnConfig(option) => match option {
                        ConfigOption::ResetRecent => Command::ResetHistory,
                        ConfigOption::SetRecentTimeout => Command::PersistConfig,
                    },
                    _ => Command::Continue,
                }
            },
        }
    }

    /// Takes the instances that were fetched for the confirmed region and
    /// makes the instance selector the active screen.
    pub fn instances_fetched(&mut self, instances: Vec<InstanceInfo>)
        requires
            old(self).wf(),
        ensures
            final(self).wf(),
            final(self)@ == old(self)@.instances_fetched(instances.deep_view()),
    {
        proof {
            assert(instances.deep_view().len() == instances.len());
            lemma_reports_keep_wf(self@, instances.deep_view(), true);
        }
        self.instance_selection_component.update_instances(instances);
        self.status = AppStatus::MainScreen;
    }

    /// Takes note of whether the history store could be cleared.
    pub fn history_reset_finished(&mut self, success: bool)
        requires
            old(self).wf(),
        ensures
            final(self).wf(),
            final(self)@ == old(self)@.history_reset_finished(success),
    {
        self.config_panel.operation_finished(success);
    }

    /// The banner that the settings panel shows in the frame drawn next.
    pub fn take_banner(&mut self) -> (r: Option<bool>)
        requires
            old(self).wf(),
        ensures
            final(self).wf(),
            final(self)@ == (AppModel {
                config_panel: old(self)@.config_panel.take_banner().0,
                ..old(self)@
            }),
            r == old(self)@.config_panel.take_banner().1,
    {
        self.config_panel.take_banner()
    }

    /// The screen that is active.
    pub fn status(&self) -> (r: AppStatus)
        ensures
            r == self@.status,
    {
        self.status
    }

    /// The tab that is marked in the header.
    pub fn selected_tab(&self) -> (r: Option<usize>)
        ensures
            r == self@.selected_tab(),
    {
        match self.status {
            AppStatus::RegionSelectState => Some(0),
            AppStatus::MainScreen => Some(1),
            AppStatus::ConfigPanelState => None,
        }
    }

    /// The settings.
    pub fn config(&self) -> (r: &Config)
        requires
            self.wf(),
        ensures
            r@ == self@.config,
            r.wf(),
    {
        &self.config
    }

    /// The settings panel.
    pub fn config_panel(&self) -> (r: &ConfigPanel)
        ensures
            r@ == self@.config_panel,
    {
        &self.config_panel
    }

    /// The region selector.
    pub fn region_select_component(&self) -> (r: &RegionList)
        ensures
            r@ == self@.region_select,
    {
        &self.region_select_component
    }

    /// The instance selector.
    pub fn instance_selection_component(&self) -> (r: &InstanceSelection)
        ensures
            r@ == self@.instance_selection,
    {
        &self.instance_selection_component
    }
}

} // verus!
