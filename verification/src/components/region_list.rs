//! The region selector: the visible regions, favorites first, and the
//! selection cursor.
use super::{Action, ActionView, Event, HandleAction, KeyCode};
use crate::order::{lemma_stable_sort_permutes, lemma_stable_sort_sorted};
use crate::order::{sort_in_place, sorted, stable_sort, total_preorder, Comparator};
use crate::selection::{clamp_selection, first_selection, next_selection, previous_selection};
use crate::selection::valid_selection;
use crate::text::{lemma_text_le_total, lemma_text_le_transitive, str_le, text_le};
use vstd::prelude::*;

verus! {

/// Whether region `a` may stand before region `b`: a favorite before a
/// region that is none, otherwise in alphabetical order.
pub open spec fn region_may_precede(a: Seq<char>, b: Seq<char>, favorites: Seq<Seq<char>>) -> bool {
    if favorites.contains(a) && !favorites.contains(b) {
        true
    } else if !favorites.contains(a) && favorites.contains(b) {
        false
    } else {
        text_le(a, b)
    }
}

/// [`region_may_precede`] as a relation, for one set of favorites.
pub open spec fn region_order(favorites: Seq<Seq<char>>) -> spec_fn(Seq<char>, Seq<char>) -> bool {
    |a: Seq<char>, b: Seq<char>| region_may_precede(a, b, favorites)
}

/// The state of a [`RegionList`].
pub struct RegionListModel {
    /// The visible regions, in the order shown.
    pub items: Seq<Seq<char>>,
    /// The favorite regions.
    pub favorites: Seq<Seq<char>>,
    /// The cursor: an index into `items`.
    pub selected: Option<usize>,
}

impl RegionListModel {
    /// The invariant: the regions are listed favorites first and
    /// alphabetically within each group, and the cursor is on one of them
    /// unless there is none.
    pub open spec fn wf(self) -> bool {
        &&& valid_selection(self.selected, self.items.len())
        &&& sorted(self.items, region_order(self.favorites))
        &&& self.items.len() <= usize::MAX
    }

    /// The list of `items` with no favorites, the cursor on the first row.
    pub open spec fn with_items(items: Seq<Seq<char>>) -> RegionListModel {
        RegionListModel {
            items: stable_sort(items, region_order(Seq::empty())),
            favorites: Seq::empty(),
            selected: first_selection(items.len()),
        }
    }

    /// The list showing `items` instead, the cursor brought back inside.
    pub open spec fn update_items(self, items: Seq<Seq<char>>) -> RegionListModel {
        RegionListModel {
            items: stable_sort(items, region_order(self.favorites)),
            selected: clamp_selection(self.selected, items.len()),
            ..self
        }
    }

    /// The list with other favorites, sorted again. The cursor keeps its
    /// index.
    pub open spec fn set_favorites(self, favorites: Seq<Seq<char>>) -> RegionListModel {
        RegionListModel {
            items: stable_sort(self.items, region_order(favorites)),
            favorites,
            ..self
        }
    }

    /// The cursor moved one row down.
    pub open spec fn next(self) -> RegionListModel {
        RegionListModel { selected: next_selection(self.selected, self.items.len()), ..self }
    }

    /// The cursor moved one row up.
    pub open spec fn previous(self) -> RegionListModel {
        RegionListModel { selected: previous_selection(self.selected, self.items.len()), ..self }
    }

    /// The region under the cursor.
    pub open spec fn current(self) -> Option<Seq<char>> {
        match self.selected {
            Some(i) => if i < self.items.len() {
                Some(self.items[i as int])
            } else {
                None
            },
            None => None,
        }
    }

    /// The list's reaction to one input event. Requests that concern the
    /// region under the cursor come to nothing on an empty list.
    pub open spec fn handle(self, event: Event) -> (RegionListModel, ActionView) {
        match event {
            Event::Key(KeyCode::Char(c)) => if c == 'q' {
                (self, ActionView::Exit)
            } else if c == 'h' {
                match self.current() {
                    Some(region) => (self, ActionView::Hide(region)),
                    None => (self, ActionView::Noop),
                }
            } else if c == 'r' {
                (self, ActionView::Reset)
            } else if c == 'c' {
                (self, ActionView::OpenConfig)
            } else if c == '*' {
                match self.current() {
                    Some(region) => (self, ActionView::ToggleFavorite(region)),
                    None => (self, ActionView::Noop),
                }
            } else {
                (self, ActionView::Noop)
            },
            Event::Key(KeyCode::Down) => (self.next(), ActionView::Noop),
            Event::Key(KeyCode::Up) => (self.previous(), ActionView::Noop),
            Event::Key(KeyCode::Right) | Event::Key(KeyCode::Enter) => match self.current() {
                Some(region) => (self, ActionView::Return(region)),
                None => (self, ActionView::Noop),
            },
            _ => (self, ActionView::Noop),
        }
    }
}

/// Any two regions are ordered one way or the other, and the order is
/// transitive, whatever the favorites.
pub proof fn lemma_region_order_total(favorites: Seq<Seq<char>>)
    ensures
        total_preorder(region_order(favorites)),
{
    let le = region_order(favorites);
    assert forall|a: Seq<char>, b: Seq<char>| #[trigger] le(a, b) || #[trigger] le(b, a) by {
        lemma_text_le_total(a, b);
    }
    assert forall|a: Seq<char>, b: Seq<char>, c: Seq<char>| #[trigger]
        le(a, b) && #[trigger] le(b, c) implies le(a, c) by {
        if text_le(a, b) && text_le(b, c) {
            lemma_text_le_transitive(a, b, c);
        }
    }
}

/// A fresh list satisfies the invariant and shows the regions it was given.
pub proof fn lemma_with_items_wf(items: Seq<Seq<char>>)
    requires
        items.len() <= usize::MAX,
    ensures
        RegionListModel::with_items(items).wf(),
        RegionListModel::with_items(items).items.to_multiset() == items.to_multiset(),
{
    lemma_region_order_total(Seq::empty());
    lemma_stable_sort_permutes(items, region_order(Seq::empty()));
    lemma_stable_sort_sorted(items, region_order(Seq::empty()));
}

/// Replacing the regions and changing the favorites both give a list that
/// satisfies the invariant, and neither adds or drops a region.
pub proof fn lemma_region_updates_keep_wf(
    m: RegionListModel,
    items: Seq<Seq<char>>,
    favorites: Seq<Seq<char>>,
)
    requires
        m.wf(),
        items.len() <= usize::MAX,
    ensures
        m.update_items(items).wf(),
        m.update_items(items).items.to_multiset() == items.to_multiset(),
        m.set_favorites(favorites).wf(),
        m.set_favorites(favorites).items.to_multiset() == m.items.to_multiset(),
{
    lemma_region_order_total(m.favorites);
    lemma_region_order_total(favorites);
    lemma_stable_sort_permutes(items, region_order(m.favorites));
    lemma_stable_sort_sorted(items, region_order(m.favorites));
    lemma_stable_sort_permutes(m.items, region_order(favorites));
    lemma_stable_sort_sorted(m.items, region_order(favorites));
}

/// Every event leaves the list in a state that satisfies the invariant.
pub proof fn lemma_region_handle_keeps_wf(m: RegionListModel, event: Event)
    requires
        m.wf(),
    ensures
        m.handle(event).0.wf(),
{
}

/// Of two listed regions of which exactly one is a favorite, the favorite
/// comes first; two favorites, and two regions that are none, are in
/// alphabetical order.
pub proof fn lemma_favorites_first(m: RegionListModel, i: int, j: int)
    requires
        m.wf(),
        0 <= i < j < m.items.len(),
    ensures
        m.favorites.contains(m.items[i]) != m.favorites.contains(m.items[j])
            ==> m.favorites.contains(m.items[i]),
        m.favorites.contains(m.items[i]) == m.favorites.contains(m.items[j]) ==> text_le(
            m.items[i],
            m.items[j],
        ),
{
    assert(region_order(m.favorites)(m.items[i], m.items[j]));
}

/// Whether `name` is one of `list`.
fn list_contains(list: &Vec<String>, name: &String) -> (r: bool)
    ensures
        r == list.deep_view().contains(name@),
{
    let mut k: usize = 0;
    while k < list.len()
        invariant
            k <= list.len(),
            forall|i: int| 0 <= i < k ==> list.deep_view()[i] != name@,
        decreases list.len() - k,
    {
        if list[k] == *name {
            assert(list.deep_view()[k as int] == name@);
            return true;
        }
        k += 1;
    }
    false
}

/// Decides [`region_may_precede`] for one set of favorites.
pub struct ByFavorite<'a> {
    pub favorites: &'a Vec<String>,
}

impl<'a> Comparator<String> for ByFavorite<'a> {
    open spec fn order(&self) -> spec_fn(Seq<char>, Seq<char>) -> bool {
        region_order(self.favorites.deep_view())
    }

    fn le(&self, a: &String, b: &String) -> (r: bool) {
        let a_favorite = list_contains(self.favorites, a);
        let b_favorite = list_contains(self.favorites, b);
        if a_favorite && !b_favorite {
            return true;
        }
        if !a_favorite && b_favorite {
            return false;
        }
        str_le(a.as_str(), b.as_str())
    }
}

/// The list of visible regions.
#[derive(Debug)]
pub struct RegionList {
    selected: Option<usize>,
    items: Vec<String>,
    favorites: Vec<String>,
}

impl View for RegionList {
    type V = RegionListModel;

    closed spec fn view(&self) -> RegionListModel {
        RegionListModel {
            items: self.items.deep_view(),
            favorites: self.favorites.deep_view(),
            selected: self.selected,
        }
    }
}

impl RegionList {
    /// A list of `items` with no favorites.
    pub fn with_items(items: Vec<String>) -> (r: RegionList)
        ensures
            r@ == RegionListModel::with_items(items.deep_view()),
            r.wf(),
    {
        let selected = crate::selection::first(items.len());
        let mut r = RegionList { selected, items, favorites: Vec::new() };
        assert(r.favorites.deep_view() =~= Seq::empty());
        r.sort_list();
        proof {
            lemma_with_items_wf(items.deep_view());
        }
        r
    }

    /// Shows `items` instead and brings the cursor back inside the list.
    pub fn update_items(&mut self, items: Vec<String>)
        requires
            old(self).wf(),
        ensures
            final(self)@ == old(self)@.update_items(items.deep_view()),
            final(self).wf(),
    {
        self.selected = crate::selection::clamp(self.selected, items.len());
        self.items = items;
        self.sort_list();
        proof {
            lemma_region_updates_keep_wf(old(self)@, items.deep_view(), Seq::empty());
        }
    }

    /// Takes other favorites and sorts the list again.
    pub fn set_favorites(&mut self, favorites: Vec<String>)
        requires
            old(self).wf(),
        ensures
            final(self)@ == old(self)@.set_favorites(favorites.deep_view()),
            final(self).wf(),
    {
        self.favorites = favorites;
        self.sort_list();
        proof {
            lemma_region_updates_keep_wf(old(self)@, Seq::empty(), favorites.deep_view());
        }
    }

    /// Sorts the list for the current favorites.
    fn sort_list(&mut self)
        ensures
            final(self)@ == (RegionListModel {
                items: stable_sort(old(self)@.items, region_order(old(self)@.favorites)),
                ..old(self)@
            }),
    {
        sort_in_place(&mut self.items, &ByFavorite { favorites: &self.favorites });
    }

    /// Moves the cursor one row down, from the last row to the first.
    fn next(&mut self)
        requires
            old(self).wf(),
        ensures
            final(self)@ == old(self)@.next(),
            final(self).wf(),
    {
        self.selected = crate::selection::next(self.selected, self.items.len());
    }

    /// Moves the cursor one row up, from the first row to the last.
    fn previous(&mut self)
        requires
            old(self).wf(),
        ensures
            final(self)@ == old(self)@.previous(),
            final(self).wf(),
    {
        self.selected = crate::selection::previous(self.selected, self.items.len());
    }

    /// The region under the cursor.
    pub fn current(&self) -> (r: Option<String>)
        ensures
            r.deep_view() == self@.current(),
    {
        match self.selected {
            Some(i) => if i < self.items.len() {
                Some(self.items[i].clone())
            } else {
                None
            },
            None => None,
        }
    }

    /// The visible regions, in the order shown.
    pub fn items(&self) -> (r: &Vec<String>)
        ensures
            r.deep_view() == self@.items,
    {
        &self.items
    }

    /// The cursor.
    pub fn selected(&self) -> (r: Option<usize>)
        ensures
            r == self@.selected,
    {
        self.selected
    }

    /// Whether `region` is shown with the mark of a favorite.
    pub fn is_favorite(&self, region: &String) -> (r: bool)
        ensures
            r == self@.favorites.contains(region@),
    {
        list_contains(&self.favorites, region)
    }
}

impl HandleAction for RegionList {
    open spec fn wf(&self) -> bool {
        self@.wf()
    }

    fn handle_action(&mut self, action: Event) -> (r: Action)
        ensures
            (final(self)@, r@) == old(self)@.handle(action),
    {
        match action {
            Event::Key(key) => match key {
                KeyCode::Char(c) => {
                    if c == 'q' {
                        Action::Exit
                    } else if c == 'h' {
                        match self.current() {
                            Some(region) => Action::Hide(region),
                            None => Action::Noop,
                        }
                    } else if c == 'r' {
                        Action::Reset
                    } else if c == 'c' {
                        Action::OpenConfig
                    } else if c == '*' {
                        match self.current() {
                            Some(region) => Action::ToggleFavorite(region),
                            None => Action::Noop,
                        }
                    } else {
                        Action::Noop
                    }
                },
                KeyCode::Down => {
                    self.next();
                    Action::Noop
                },
                KeyCode::Up => {
                    self.previous();
                    Action::Noop
                },
                KeyCode::Right | KeyCode::Enter => match self.current() {
                    Some(region) => Action::Return(region),
                    None => Action::Noop,
                },
                _ => Action::Noop,
            },
            _ => Action::Noop,
        }
    }
}

} // verus!
