//! The instance table: the full set of records, the filtered and sorted
//! view that is shown, and the selection cursor.
use super::{Action, ActionView, Event, HandleAction, KeyCode};
use crate::instance::{InstanceInfo, InstanceView};
use crate::order::{sort_in_place, sorted, stable_sort, total_preorder, Comparator};
use crate::order::{lemma_stable_sort_permutes, lemma_stable_sort_sorted};
use crate::selection::{first_selection, next_selection, previous_selection, valid_selection};
use crate::text::{matches_filter, name_matches, str_le, text_le};
use crate::text::{lemma_text_le_total, lemma_text_le_transitive};
use vstd::prelude::*;

verus! {

/// Whether record `a` may stand before record `b`. Alphabetical order of
/// the display names; in recency-first mode records with a time of last
/// access come first, the latest first, and the names order the rest.
pub open spec fn may_precede(a: InstanceView, b: InstanceView, recent_first: bool) -> bool {
    if recent_first {
        match (a.last_access, b.last_access) {
            (Some(x), Some(y)) => x >= y,
            (Some(_), None) => true,
            (None, Some(_)) => false,
            (None, None) => text_le(a.name, b.name),
        }
    } else {
        text_le(a.name, b.name)
    }
}

/// [`may_precede`] as a relation, for one sort mode.
pub open spec fn instance_order(recent_first: bool) -> spec_fn(InstanceView, InstanceView) -> bool {
    |a: InstanceView, b: InstanceView| may_precede(a, b, recent_first)
}

/// The test that a filter puts to a record.
pub open spec fn passes(filter: Seq<char>) -> spec_fn(InstanceView) -> bool {
    |r: InstanceView| name_matches(r.name, filter)
}

/// The records whose display name passes the filter, in their given order.
pub open spec fn filtered(items: Seq<InstanceView>, filter: Seq<char>) -> Seq<InstanceView> {
    items.filter(passes(filter))
}

/// The view that is shown of `items` under a filter and a sort mode.
pub open spec fn derived_view(
    items: Seq<InstanceView>,
    filter: Seq<char>,
    recent_first: bool,
) -> Seq<InstanceView> {
    stable_sort(filtered(items, filter), instance_order(recent_first))
}

/// The state of an [`InstanceTable`].
pub struct TableModel {
    /// The full record set.
    pub items: Seq<InstanceView>,
    /// The records that are shown, in the order shown.
    pub visible: Seq<InstanceView>,
    /// The filter that `visible` was derived with.
    pub filter: Seq<char>,
    /// The sort mode: recency-first, else alphabetical.
    pub recent_first: bool,
    /// The cursor: an index into `visible`.
    pub selected: Option<usize>,
}

impl TableModel {
    /// The invariant: the shown records are the ones that pass the filter,
    /// in sorted order, and the cursor is on one of them unless none is
    /// shown.
    pub open spec fn wf(self) -> bool {
        &&& valid_selection(self.selected, self.visible.len())
        &&& self.visible.to_multiset() == filtered(self.items, self.filter).to_multiset()
        &&& sorted(self.visible, instance_order(self.recent_first))
        &&& self.visible.len() <= self.items.len() <= usize::MAX
    }

    /// The table right after `items` were loaded under `filter`, sorted
    /// alphabetically.
    pub open spec fn loaded(items: Seq<InstanceView>, filter: Seq<char>) -> TableModel {
        let visible = derived_view(items, filter, false);
        TableModel {
            items,
            visible,
            filter,
            recent_first: false,
            selected: first_selection(visible.len()),
        }
    }

    /// The view rebuilt from the full set under a new filter, the cursor on
    /// the first row.
    pub open spec fn apply_filter(self, filter: Seq<char>) -> TableModel {
        let visible = derived_view(self.items, filter, self.recent_first);
        TableModel { visible, filter, selected: first_selection(visible.len()), ..self }
    }

    /// The table holding another full set, the view derived anew under the
    /// same filter and sort mode.
    pub open spec fn replace_items(self, items: Seq<InstanceView>) -> TableModel {
        let visible = derived_view(items, self.filter, self.recent_first);
        TableModel { items, visible, selected: first_selection(visible.len()), ..self }
    }

    /// The cursor moved one row down.
    pub open spec fn next(self) -> TableModel {
        TableModel { selected: next_selection(self.selected, self.visible.len()), ..self }
    }

    /// The cursor moved one row up.
    pub open spec fn previous(self) -> TableModel {
        TableModel { selected: previous_selection(self.selected, self.visible.len()), ..self }
    }

    /// The other sort mode, the shown records sorted again in place. The
    /// cursor keeps its index.
    pub open spec fn toggle_sort(self) -> TableModel {
        TableModel {
            recent_first: !self.recent_first,
            visible: stable_sort(self.visible, instance_order(!self.recent_first)),
            ..self
        }
    }

    /// The record under the cursor.
    pub open spec fn current(self) -> Option<InstanceView> {
        match self.selected {
            Some(i) => if i < self.visible.len() {
                Some(self.visible[i as int])
            } else {
                None
            },
            None => None,
        }
    }

    /// What a move of the cursor reports: the record it landed on.
    pub open spec fn selection_action(self) -> ActionView {
        match self.current() {
            Some(item) => ActionView::Select(item),
            None => ActionView::Noop,
        }
    }

    /// The table's reaction to one input event: the next state and the
    /// action it answers with.
    pub open spec fn handle(self, event: Event) -> (TableModel, ActionView) {
        match event {
            Event::Key(KeyCode::Char(c)) => if c == 'q' {
                (self, ActionView::Exit)
            } else if c == '/' {
                (self, ActionView::Search)
            } else if c == 'i' {
                (self, ActionView::ToggleInfoPanel)
            } else if c == 'r' {
                (self.toggle_sort(), ActionView::Noop)
            } else {
                (self, ActionView::Noop)
            },
            Event::Key(KeyCode::Down) => if self.visible.len() == 0 {
                (self, ActionView::Noop)
            } else {
                (self.next(), self.next().selection_action())
            },
            Event::Key(KeyCode::Up) => if self.visible.len() == 0 {
                (self, ActionView::Noop)
            } else {
                (self.previous(), self.previous().selection_action())
            },
            Event::Key(KeyCode::Right) | Event::Key(KeyCode::Enter) => match self.current() {
                Some(item) => (self, ActionView::ReturnInstance(item)),
                None => (self, ActionView::Noop),
            },
            _ => (self, ActionView::Noop),
        }
    }
}

/// Any two records are ordered one way or the other, and the order is
/// transitive, in both sort modes.
pub proof fn lemma_instance_order_total(recent_first: bool)
    ensures
        total_preorder(instance_order(recent_first)),
{
    let le = instance_order(recent_first);
    assert forall|a: InstanceView, b: InstanceView| #[trigger] le(a, b) || #[trigger] le(b, a) by {
        lemma_text_le_total(a.name, b.name);
    }
    assert forall|a: InstanceView, b: InstanceView, c: InstanceView| #[trigger]
        le(a, b) && #[trigger] le(b, c) implies le(a, c) by {
        if text_le(a.name, b.name) && text_le(b.name, c.name) {
            lemma_text_le_transitive(a.name, b.name, c.name);
        }
    }
}

/// A freshly derived view satisfies the table's invariant, whatever the
/// full set, the filter and the sort mode.
pub proof fn lemma_apply_filter_wf(m: TableModel, filter: Seq<char>)
    requires
        m.items.len() <= usize::MAX,
    ensures
        m.apply_filter(filter).wf(),
        TableModel::loaded(m.items, filter).wf(),
        (TableModel { filter, ..m }).replace_items(m.items).wf(),
{
    broadcast use vstd::seq_lib::group_filter_ensures;

    lemma_instance_order_total(m.recent_first);
    lemma_instance_order_total(false);
    lemma_stable_sort_permutes(filtered(m.items, filter), instance_order(m.recent_first));
    lemma_stable_sort_sorted(filtered(m.items, filter), instance_order(m.recent_first));
    lemma_stable_sort_permutes(filtered(m.items, filter), instance_order(false));
    lemma_stable_sort_sorted(filtered(m.items, filter), instance_order(false));
}

/// Moving the cursor keeps the invariant.
pub proof fn lemma_moves_keep_wf(m: TableModel)
    requires
        m.wf(),
    ensures
        m.next().wf(),
        m.previous().wf(),
{
}

/// Switching the sort mode keeps the invariant: the same records are shown,
/// sorted for the new mode, and the cursor is still on a row.
pub proof fn lemma_toggle_keeps_wf(m: TableModel)
    requires
        m.wf(),
    ensures
        m.toggle_sort().wf(),
        m.toggle_sort().visible.len() == m.visible.len(),
{
    lemma_instance_order_total(!m.recent_first);
    lemma_stable_sort_permutes(m.visible, instance_order(!m.recent_first));
    lemma_stable_sort_sorted(m.visible, instance_order(!m.recent_first));
}

/// Every event leaves the table in a state that satisfies the invariant.
pub proof fn lemma_handle_keeps_wf(m: TableModel, event: Event)
    requires
        m.wf(),
    ensures
        m.handle(event).0.wf(),
{
    lemma_moves_keep_wf(m);
    lemma_toggle_keeps_wf(m);
}

/// The filtered view holds exactly the records of the full set whose name
/// contains the filter, case-insensitively: every shown record passes, and
/// every record of the full set that is not shown does not.
pub proof fn lemma_view_is_filtered(m: TableModel, r: InstanceView)
    requires
        m.wf(),
    ensures
        m.visible.contains(r) <==> m.items.contains(r) && name_matches(r.name, m.filter),
{
    broadcast use vstd::seq_lib::group_filter_ensures;

    let f = filtered(m.items, m.filter);
    vstd::seq_lib::to_multiset_contains(m.visible, r);
    vstd::seq_lib::to_multiset_contains(f, r);
    if f.contains(r) {
        let i = choose|i: int| 0 <= i < f.len() && f[i] == r;
        assert(passes(m.filter)(f[i]));
        m.items.lemma_filter_contains_rev(passes(m.filter), r);
    }
    if m.items.contains(r) && name_matches(r.name, m.filter) {
        let i = choose|i: int| 0 <= i < m.items.len() && m.items[i] == r;
        assert(passes(m.filter)(m.items[i]));
        assert(f.contains(m.items[i]));
    }
}

/// Applying the same filter a second time gives the same table.
pub proof fn lemma_apply_filter_idempotent(m: TableModel, filter: Seq<char>)
    ensures
        m.apply_filter(filter).apply_filter(filter) == m.apply_filter(filter),
{
}

/// In recency-first mode, of two shown records with a time of last access
/// the one with the later time comes first, and no record without a time
/// comes before a record with one.
pub proof fn lemma_recent_first_order(m: TableModel, i: int, j: int)
    requires
        m.wf(),
        m.recent_first,
        0 <= i < j < m.visible.len(),
    ensures
        m.visible[i].last_access is Some && m.visible[j].last_access is Some
            ==> m.visible[i].last_access->0 >= m.visible[j].last_access->0,
        m.visible[j].last_access is Some ==> m.visible[i].last_access is Some,
{
    assert(instance_order(true)(m.visible[i], m.visible[j]));
}

/// In alphabetical mode the shown records are in the order of their names.
pub proof fn lemma_alphabetical_order(m: TableModel, i: int, j: int)
    requires
        m.wf(),
        !m.recent_first,
        0 <= i < j < m.visible.len(),
    ensures
        text_le(m.visible[i].name, m.visible[j].name),
{
    assert(instance_order(false)(m.visible[i], m.visible[j]));
}

/// A view of at most one record is the same in both sort modes.
pub proof fn lemma_toggle_keeps_short_view(m: TableModel)
    requires
        m.visible.len() <= 1,
    ensures
        m.toggle_sort().visible == m.visible,
{
    crate::order::lemma_stable_sort_of_sorted(m.visible, instance_order(!m.recent_first));
}

/// Decides [`may_precede`] for one sort mode.
pub struct ByRecency {
    pub recent_first: bool,
}

impl Comparator<InstanceInfo> for ByRecency {
    open spec fn order(&self) -> spec_fn(InstanceView, InstanceView) -> bool {
        instance_order(self.recent_first)
    }

    fn le(&self, a: &InstanceInfo, b: &InstanceInfo) -> (r: bool) {
        if self.recent_first {
            match (a.get_last_access(), b.get_last_access()) {
                (Some(x), Some(y)) => {
                    return x >= y;
                },
                (Some(_), None) => {
                    return true;
                },
                (None, Some(_)) => {
                    return false;
                },
                (None, None) => {},
            }
        }
        let a_name = a.get_name();
        let b_name = b.get_name();
        str_le(a_name.as_str(), b_name.as_str())
    }
}

/// A command for the row under the cursor.
enum RowCommand {
    NextItem,
    PreviousItem,
    AccessItem,
}

/// The table of instances of one region.
#[derive(Debug)]
pub struct InstanceTable {
    selected: Option<usize>,
    items: Vec<InstanceInfo>,
    visible_items: Vec<InstanceInfo>,
    filter: String,
    recent_first: bool,
}

impl View for InstanceTable {
    type V = TableModel;

    closed spec fn view(&self) -> TableModel {
        TableModel {
            items: self.items.deep_view(),
            visible: self.visible_items.deep_view(),
            filter: self.filter@,
            recent_first: self.recent_first,
            selected: self.selected,
        }
    }
}

/// The records of `items` that pass `filter`, in their order.
fn filter_items(items: &Vec<InstanceInfo>, filter: &str) -> (out: Vec<InstanceInfo>)
    ensures
        out.deep_view() == filtered(items.deep_view(), filter@),
{
    let ghost all = items.deep_view();
    let ghost pred = passes(filter@);
    let mut out: Vec<InstanceInfo> = Vec::new();
    let mut k: usize = 0;
    proof {
        reveal(Seq::filter);
        assert(all.take(0) =~= Seq::empty());
        assert(out.deep_view() =~= Seq::empty());
    }
    while k < items.len()
        invariant
            all == items.deep_view(),
            pred == passes(filter@),
            k <= items.len(),
            out.deep_view() == all.take(k as int).filter(pred),
        decreases items.len() - k,
    {
        let ghost shown = out.deep_view();
        let name = items[k].get_name();
        if matches_filter(name.as_str(), filter) {
            out.push(items[k].clone());
            assert(out.deep_view() =~= shown.push(all[k as int]));
        }
        proof {
            all.take(k as int).lemma_filter_push(all[k as int], pred);
            assert(all.take(k + 1) =~= all.take(k as int).push(all[k as int]));
        }
        k += 1;
    }
    assert(all.take(k as int) =~= all);
    out
}

impl InstanceTable {
    /// A table of `items` with no filter, sorted alphabetically.
    pub fn with_items(items: Vec<InstanceInfo>) -> (r: InstanceTable)
        ensures
            r@ == TableModel::loaded(items.deep_view(), Seq::empty()),
            r.wf(),
    {
        InstanceTable::with_items_and_filter(items, String::new())
    }

    /// A table of `items` under `filter`, sorted alphabetically.
    pub fn with_items_and_filter(items: Vec<InstanceInfo>, filter: String) -> (r: InstanceTable)
        ensures
            r@ == TableModel::loaded(items.deep_view(), filter@),
            r.wf(),
    {
        let mut visible_items = filter_items(&items, filter.as_str());
        sort_in_place(&mut visible_items, &ByRecency { recent_first: false });
        let selected = crate::selection::first(visible_items.len());
        let r = InstanceTable { selected, items, visible_items, filter, recent_first: false };
        proof {
            assert(r.items.deep_view().len() == r.items.len());
            lemma_apply_filter_wf(r@, filter@);
        }
        r
    }

    /// Rebuilds the view from the full set under `filter` and puts the
    /// cursor on the first row.
    pub fn apply_filter(&mut self, filter: String)
        ensures
            final(self)@ == old(self)@.apply_filter(filter@),
            final(self).wf(),
    {
        let mut visible_items = filter_items(&self.items, filter.as_str());
        sort_in_place(&mut visible_items, &ByRecency { recent_first: self.recent_first });
        self.selected = crate::selection::first(visible_items.len());
        self.visible_items = visible_items;
        self.filter = filter;
        proof {
            assert(self.items.deep_view().len() == self.items.len());
            lemma_apply_filter_wf(old(self)@, filter@);
        }
    }

    /// Takes another full set of records and derives the view anew under
    /// the filter and the sort mode that are in force.
    pub fn replace_items(&mut self, items: Vec<InstanceInfo>)
        ensures
            final(self)@ == old(self)@.replace_items(items.deep_view()),
            final(self).wf(),
    {
        let mut visible_items = filter_items(&items, self.filter.as_str());
        sort_in_place(&mut visible_items, &ByRecency { recent_first: self.recent_first });
        self.selected = crate::selection::first(visible_items.len());
        self.visible_items = visible_items;
        self.items = items;
        proof {
            assert(items.deep_view().len() == items.len());
            lemma_apply_filter_wf(
                TableModel { items: items.deep_view(), ..old(self)@ },
                old(self)@.filter,
            );
        }
    }

    /// Sorts the shown records again, in place, for the current sort mode.
    fn sort_instances(&mut self)
        ensures
            final(self)@ == (TableModel {
                visible: stable_sort(old(self)@.visible, instance_order(old(self)@.recent_first)),
                ..old(self)@
            }),
    {
        sort_in_place(&mut self.visible_items, &ByRecency { recent_first: self.recent_first });
    }

    /// Moves the cursor one row down, from the last row to the first.
    pub fn next(&mut self)
        requires
            old(self).wf(),
        ensures
            final(self)@ == old(self)@.next(),
            final(self).wf(),
    {
        self.selected = crate::selection::next(self.selected, self.visible_items.len());
        proof {
            lemma_moves_keep_wf(old(self)@);
        }
    }

    /// Moves the cursor one row up, from the first row to the last.
    pub fn previous(&mut self)
        requires
            old(self).wf(),
        ensures
            final(self)@ == old(self)@.previous(),
            final(self).wf(),
    {
        self.selected = crate::selection::previous(self.selected, self.visible_items.len());
        proof {
            lemma_moves_keep_wf(old(self)@);
        }
    }

    /// The record under the cursor.
    pub fn current(&self) -> (r: Option<InstanceInfo>)
        ensures
            r.deep_view() == self@.current(),
    {
        match self.selected {
            Some(i) => if i < self.visible_items.len() {
                Some(self.visible_items[i].clone())
            } else {
                None
            },
            None => None,
        }
    }

    fn perform_key_action(&mut self, command: RowCommand) -> (r: Action)
        requires
            old(self).wf(),
        ensures
            final(self).wf(),
            (final(self)@, r@) == match command {
                RowCommand::NextItem => old(self)@.handle(Event::Key(KeyCode::Down)),
                RowCommand::PreviousItem => old(self)@.handle(Event::Key(KeyCode::Up)),
                RowCommand::AccessItem => old(self)@.handle(Event::Key(KeyCode::Enter)),
            },
    {
        if self.visible_items.len() != 0 {
            match command {
                RowCommand::NextItem => self.next(),
                RowCommand::PreviousItem => self.previous(),
                RowCommand::AccessItem => {
                    return match self.current() {
                        Some(item) => Action::ReturnInstance(item),
                        None => Action::Noop,
                    };
                },
            }
            match self.current() {
                Some(item) => Action::Select(item),
                None => Action::Noop,
            }
        } else {
            Action::Noop
        }
    }

    /// The full record set.
    pub fn items(&self) -> (r: &Vec<InstanceInfo>)
        ensures
            r.deep_view() == self@.items,
    {
        &self.items
    }

    /// The records that are shown, in the order shown.
    pub fn visible_items(&self) -> (r: &Vec<InstanceInfo>)
        ensures
            r.deep_view() == self@.visible,
    {
        &self.visible_items
    }

    /// The filter that the view was derived with.
    pub fn filter(&self) -> (r: &String)
        ensures
            r@ == self@.filter,
    {
        &self.filter
    }

    /// The cursor.
    pub fn selected(&self) -> (r: Option<usize>)
        ensures
            r == self@.selected,
    {
        self.selected
    }

    /// Whether the sort mode is recency-first.
    pub fn is_recent_first(&self) -> (r: bool)
        ensures
            r == self@.recent_first,
    {
        self.recent_first
    }

    /// Whether the row of `item` is marked as recently used: only in
    /// recency-first mode, and only if the record has a time of last access.
    pub fn marks_recent(&self, item: &InstanceInfo) -> (r: bool)
        ensures
            r == (self@.recent_first && item@.last_access is Some),
    {
        self.recent_first && item.get_last_access().is_some()
    }
}

impl HandleAction for InstanceTable {
    open spec fn wf(&self) -> bool {
        self@.wf()
    }

    fn handle_action(&mut self, action: Event) -> (r: Action)
        ensures
            (final(self)@, r@) == old(self)@.handle(action),
    {
        match action {
            Event::Key(key) => match key {
                KeyCode::Char(c) => {
                    if c == 'q' {
                        Action::Exit
                    } else if c == '/' {
                        Action::Search
                    } else if c == 'i' {
                        Action::ToggleInfoPanel
                    } else if c == 'r' {
                        self.recent_first = !self.recent_first;
                        self.sort_instances();
                        proof {
                            lemma_toggle_keeps_wf(old(self)@);
                        }
                        Action::Noop
                    } else {
                        Action::Noop
                    }
                },
                KeyCode::Down => self.perform_key_action(RowCommand::NextItem),
                KeyCode::Up => self.perform_key_action(RowCommand::PreviousItem),
                KeyCode::Right | KeyCode::Enter => self.perform_key_action(RowCommand::AccessItem),
                _ => Action::Noop,
            },
            _ => Action::Noop,
        }
    }
}

} // verus!
