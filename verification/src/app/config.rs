//! The settings: which regions are hidden or marked as favorites, and the
//! retention window of the connection history.
use crate::name_map::NameMap;
use vstd::prelude::*;

verus! {

/// The retention window of a fresh settings store: 7 days, in seconds.
pub const DEFAULT_RECENT_TIMEOUT: u64 = 60 * 60 * 24 * 7;

/// The flags of one region.
#[derive(Debug, Clone, Copy)]
pub struct RegionConfig {
    pub hidden: bool,
    pub favorite: bool,
}

impl Default for RegionConfig {
    fn default() -> (r: RegionConfig)
        ensures
            r == (RegionConfig { hidden: false, favorite: false }),
    {
        RegionConfig { hidden: false, favorite: false }
    }
}

/// A change to the flags of one region.
#[derive(Debug, Clone, Copy)]
pub enum FlagChange {
    Hide,
    Favorite(bool),
    ToggleFavorite,
}

impl FlagChange {
    /// The region with the change made.
    pub open spec fn apply(self, r: RegionView) -> RegionView {
        match self {
            FlagChange::Hide => RegionView { hidden: true, ..r },
            FlagChange::Favorite(favorite) => RegionView { favorite, ..r },
            FlagChange::ToggleFavorite => RegionView { favorite: !r.favorite, ..r },
        }
    }

    /// The flags with the change made.
    fn apply_to(self, flags: RegionConfig) -> (r: RegionConfig)
        ensures
            forall|name: Seq<char>|
                #![trigger self.apply(region_of(name, flags))]
                self.apply(region_of(name, flags)) == region_of(name, r),
    {
        match self {
            FlagChange::Hide => RegionConfig { hidden: true, favorite: flags.favorite },
            FlagChange::Favorite(favorite) => RegionConfig { hidden: flags.hidden, favorite },
            FlagChange::ToggleFavorite => RegionConfig {
                hidden: flags.hidden,
                favorite: !flags.favorite,
            },
        }
    }
}

/// The region of a name and its flags.
pub open spec fn region_of(name: Seq<char>, flags: RegionConfig) -> RegionView {
    RegionView { name, hidden: flags.hidden, favorite: flags.favorite }
}

/// One region of the settings, as plain values.
pub struct RegionView {
    pub name: Seq<char>,
    pub hidden: bool,
    pub favorite: bool,
}

/// The settings, as plain values.
pub struct ConfigView {
    /// The retention window of the connection history, in seconds.
    pub recent_timeout: u64,
    /// The regions, in the order of the catalog.
    pub regions: Seq<RegionView>,
}

/// The region is not hidden.
pub open spec fn shown() -> spec_fn(RegionView) -> bool {
    |r: RegionView| !r.hidden
}

/// The region is a favorite.
pub open spec fn favored() -> spec_fn(RegionView) -> bool {
    |r: RegionView| r.favorite
}

/// The name of a region.
pub open spec fn name_of() -> spec_fn(RegionView) -> Seq<char> {
    |r: RegionView| r.name
}

/// A region as it first appears: neither hidden nor a favorite.
pub open spec fn fresh_region() -> spec_fn(Seq<char>) -> RegionView {
    |name: Seq<char>| RegionView { name, hidden: false, favorite: false }
}

/// `regions` with `r` stored under its name: in place of the region of
/// that name, or as a new last region.
pub open spec fn upsert(regions: Seq<RegionView>, r: RegionView) -> Seq<RegionView> {
    let names = regions.map_values(name_of());
    if names.contains(r.name) {
        regions.update(names.index_of(r.name), r)
    } else {
        regions.push(r)
    }
}

/// The regions that a stored list amounts to: each name once, the last
/// flags stored for a name at the place where the name first occurred.
pub open spec fn restore_regions(stored: Seq<RegionView>) -> Seq<RegionView>
    decreases stored.len(),
{
    if stored.len() == 0 {
        stored
    } else {
        upsert(restore_regions(stored.drop_last()), stored.last())
    }
}

/// The fixed catalog of regions that a fresh settings store starts with.
pub open spec fn default_catalog() -> Seq<Seq<char>> {
    seq![
        "af-south-1"@,
        "ap-east-1"@,
        "ap-northeast-1"@,
        "ap-northeast-2"@,
        "ap-northeast-3"@,
        "ap-south-1"@,
        "ap-south-2"@,
        "ap-southeast-1"@,
        "ap-southeast-2"@,
        "ap-southeast-3"@,
        "ap-southeast-4"@,
        "ca-central-1"@,
        "ca-west-1"@,
        "eu-central-1"@,
        "eu-central-2"@,
        "eu-north-1"@,
        "eu-south-1"@,
        "eu-south-2"@,
        "eu-west-1"@,
        "eu-west-2"@,
        "eu-west-3"@,
        "il-central-1"@,
        "me-central-1"@,
        "me-south-1"@,
        "sa-east-1"@,
        "us-east-1"@,
        "us-east-2"@,
        "us-west-1"@,
        "us-west-2"@,
    ]
}

impl ConfigView {
    /// No region name occurs twice.
    pub open spec fn wf(self) -> bool {
        self.regions.map_values(name_of()).no_duplicates()
    }

    /// The settings of a first run: the default catalog, nothing hidden, no
    /// favorites, the default retention window.
    pub open spec fn fresh() -> ConfigView {
        ConfigView {
            recent_timeout: DEFAULT_RECENT_TIMEOUT,
            regions: default_catalog().map_values(fresh_region()),
        }
    }

    /// The names of the regions that are not hidden, in catalog order.
    pub open spec fn visible_names(self) -> Seq<Seq<char>> {
        self.regions.filter(shown()).map_values(name_of())
    }

    /// The names of the favorite regions, in catalog order.
    pub open spec fn favorite_names(self) -> Seq<Seq<char>> {
        self.regions.filter(favored()).map_values(name_of())
    }

    /// The region `name` is part of the settings.
    pub open spec fn has_region(self, name: Seq<char>) -> bool {
        self.regions.map_values(name_of()).contains(name)
    }

    /// The settings with `change` made to the region `name`. Other regions,
    /// and the settings as a whole if there is no such region, stay as they
    /// are.
    pub open spec fn change(self, name: Seq<char>, change: FlagChange) -> ConfigView {
        ConfigView {
            regions: self.regions.map_values(
                |r: RegionView|
                    if r.name == name {
                        change.apply(r)
                    } else {
                        r
                    },
            ),
            ..self
        }
    }

    /// The settings with the region `name` hidden.
    pub open spec fn hide_region(self, name: Seq<char>) -> ConfigView {
        self.change(name, FlagChange::Hide)
    }

    /// The settings with no region hidden.
    pub open spec fn reset_hidden_regions(self) -> ConfigView {
        ConfigView {
            regions: self.regions.map_values(|r: RegionView| RegionView { hidden: false, ..r }),
            ..self
        }
    }

    /// The settings with the favorite flag of the region `name` set to
    /// `favorite`.
    pub open spec fn set_favorite(self, name: Seq<char>, favorite: bool) -> ConfigView {
        self.change(name, FlagChange::Favorite(favorite))
    }

    /// The settings with the favorite flag of the region `name` flipped.
    pub open spec fn toggle_favorite_region(self, name: Seq<char>) -> ConfigView {
        self.change(name, FlagChange::ToggleFavorite)
    }

    /// The settings with another retention window.
    pub open spec fn with_recent_timeout(self, timeout: u64) -> ConfigView {
        ConfigView { recent_timeout: timeout, ..self }
    }

    /// The settings that a stored settings object amounts to.
    pub open spec fn restore(self) -> ConfigView {
        ConfigView { regions: restore_regions(self.regions), ..self }
    }
}

/// One region as it is persisted.
#[derive(Debug)]
pub struct StoredRegion {
    pub name: String,
    pub hidden: bool,
    pub favorite: bool,
}

impl View for StoredRegion {
    type V = RegionView;

    open spec fn view(&self) -> RegionView {
        RegionView { name: self.name@, hidden: self.hidden, favorite: self.favorite }
    }
}

impl DeepView for StoredRegion {
    type V = RegionView;

    open spec fn deep_view(&self) -> RegionView {
        self@
    }
}

/// The settings object as it is persisted.
#[derive(Debug)]
pub struct StoredConfig {
    pub recent_timeout: u64,
    pub regions: Vec<StoredRegion>,
}

impl View for StoredConfig {
    type V = ConfigView;

    open spec fn view(&self) -> ConfigView {
        ConfigView { recent_timeout: self.recent_timeout, regions: self.regions.deep_view() }
    }
}

/// The settings.
#[derive(Debug)]
pub struct Config {
    recent_timeout: u64,
    regions: NameMap<RegionConfig>,
}

impl View for Config {
    type V = ConfigView;

    closed spec fn view(&self) -> ConfigView {
        ConfigView {
            recent_timeout: self.recent_timeout,
            regions: Seq::new(
                self.regions.keys().len(),
                |i: int| region_of(self.regions.keys()[i], self.regions.values()[i]),
            ),
        }
    }
}

/// The marks that tell the names of the default catalog apart: the length,
/// the first two characters, the fourth and the last.
spec fn marks(s: Seq<char>) -> (nat, char, char, char, char) {
    (s.len(), s[0], s[1], s[3], s[s.len() - 1])
}

/// No two names of the default catalog are the same.
pub proof fn lemma_catalog_distinct()
    ensures
        default_catalog().no_duplicates(),
        default_catalog().len() == 29,
{
    reveal_strlit("af-south-1");
    reveal_strlit("ap-east-1");
    reveal_strlit("ap-northeast-1");
    reveal_strlit("ap-northeast-2");
    reveal_strlit("ap-northeast-3");
    reveal_strlit("ap-south-1");
    reveal_strlit("ap-south-2");
    reveal_strlit("ap-southeast-1");
    reveal_strlit("ap-southeast-2");
    reveal_strlit("ap-southeast-3");
    reveal_strlit("ap-southeast-4");
    reveal_strlit("ca-central-1");
    reveal_strlit("ca-west-1");
    reveal_strlit("eu-central-1");
    reveal_strlit("eu-central-2");
    reveal_strlit("eu-north-1");
    reveal_strlit("eu-south-1");
    reveal_strlit("eu-south-2");
    reveal_strlit("eu-west-1");
    reveal_strlit("eu-west-2");
    reveal_strlit("eu-west-3");
    reveal_strlit("il-central-1");
    reveal_strlit("me-central-1");
    reveal_strlit("me-south-1");
    reveal_strlit("sa-east-1");
    reveal_strlit("us-east-1");
    reveal_strlit("us-east-2");
    reveal_strlit("us-west-1");
    reveal_strlit("us-west-2");
    let c = default_catalog();
    assert forall|i: int, j: int| 0 <= i < c.len() && 0 <= j < c.len() && i != j implies c[i]
        != c[j] by {
        assert(marks(c[i]) != marks(c[j]));
    }
}

/// The regions that a list of names and a list of flags stand for.
pub open spec fn regions_of(keys: Seq<Seq<char>>, values: Seq<RegionConfig>) -> Seq<RegionView> {
    Seq::new(keys.len(), |i: int| region_of(keys[i], values[i]))
}

/// Reading back what was persisted gives the settings that were persisted.
pub proof fn lemma_restore_round_trip(v: ConfigView)
    requires
        v.wf(),
    ensures
        v.restore() == v,
{
    lemma_restore_regions_distinct(v.regions);
}

proof fn lemma_restore_regions_distinct(regions: Seq<RegionView>)
    requires
        regions.map_values(name_of()).no_duplicates(),
    ensures
        restore_regions(regions) == regions,
    decreases regions.len(),
{
    if regions.len() > 0 {
        let front = regions.drop_last();
        let names = regions.map_values(name_of());
        assert(front.map_values(name_of()) =~= names.drop_last());
        lemma_restore_regions_distinct(front);
        if front.map_values(name_of()).contains(regions.last().name) {
            let i = choose|i: int|
                0 <= i < front.len() && front.map_values(name_of())[i] == regions.last().name;
            assert(names[i] == names[regions.len() - 1]);
        }
        assert(front.push(regions.last()) =~= regions);
    }
}

/// A filter that every element passes keeps the list as it is.
proof fn lemma_filter_keeps_all(s: Seq<RegionView>, pred: spec_fn(RegionView) -> bool)
    requires
        forall|i: int| 0 <= i < s.len() ==> pred(#[trigger] s[i]),
    ensures
        s.filter(pred) == s,
    decreases s.len(),
{
    reveal(Seq::filter);
    if s.len() > 0 {
        lemma_filter_keeps_all(s.drop_last(), pred);
        assert(s.drop_last().push(s.last()) =~= s);
    }
}

/// Changes to the flags keep the region names, so the settings stay
/// well-formed.
pub proof fn lemma_changes_keep_wf(v: ConfigView, name: Seq<char>, change: FlagChange)
    requires
        v.wf(),
    ensures
        v.change(name, change).wf(),
        v.reset_hidden_regions().wf(),
        v.change(name, change).regions.map_values(name_of()) == v.regions.map_values(name_of()),
        v.reset_hidden_regions().regions.map_values(name_of()) == v.regions.map_values(name_of()),
{
    assert(v.change(name, change).regions.map_values(name_of()) =~= v.regions.map_values(
        name_of(),
    ));
    assert(v.reset_hidden_regions().regions.map_values(name_of()) =~= v.regions.map_values(
        name_of(),
    ));
}

/// A change to the regions that keeps every name and every answer of a
/// test keeps the list of the names that pass the test.
proof fn lemma_names_stable(
    s: Seq<RegionView>,
    f: spec_fn(RegionView) -> RegionView,
    pred: spec_fn(RegionView) -> bool,
)
    requires
        forall|r: RegionView| #![trigger f(r)] f(r).name == r.name && pred(f(r)) == pred(r),
    ensures
        s.map_values(f).filter(pred).map_values(name_of()) == s.filter(pred).map_values(name_of()),
    decreases s.len(),
{
    reveal(Seq::filter);
    let changed = s.map_values(f);
    if s.len() > 0 {
        let front = s.drop_last();
        lemma_names_stable(front, f, pred);
        assert(changed.drop_last() =~= front.map_values(f));
        assert(changed.last() == f(s.last()));
        assert(pred(changed.last()) == pred(s.last()));
        if pred(s.last()) {
            assert(changed.filter(pred) == changed.drop_last().filter(pred).push(changed.last()));
            assert(s.filter(pred) == front.filter(pred).push(s.last()));
            assert(changed.filter(pred).map_values(name_of()) =~= changed.drop_last().filter(
                pred,
            ).map_values(name_of()).push(s.last().name));
            assert(s.filter(pred).map_values(name_of()) =~= front.filter(pred).map_values(
                name_of(),
            ).push(s.last().name));
        } else {
            assert(changed.filter(pred) == changed.drop_last().filter(pred));
            assert(s.filter(pred) == front.filter(pred));
        }
    } else {
        assert(changed =~= s);
    }
}

/// The two flags of a region are independent: hiding and showing regions
/// leaves the favorites as they are, and marking favorites leaves the
/// visible regions as they are.
pub proof fn lemma_flags_are_independent(v: ConfigView, name: Seq<char>, favorite: bool)
    ensures
        v.hide_region(name).favorite_names() == v.favorite_names(),
        v.reset_hidden_regions().favorite_names() == v.favorite_names(),
        v.toggle_favorite_region(name).visible_names() == v.visible_names(),
        v.set_favorite(name, favorite).visible_names() == v.visible_names(),
{
    let hide = |r: RegionView|
        if r.name == name {
            FlagChange::Hide.apply(r)
        } else {
            r
        };
    assert(v.regions.map_values(hide) =~= v.hide_region(name).regions);
    lemma_names_stable(v.regions, hide, favored());
    let show = |r: RegionView| RegionView { hidden: false, ..r };
    assert(v.regions.map_values(show) =~= v.reset_hidden_regions().regions);
    lemma_names_stable(v.regions, show, favored());
    let toggle = |r: RegionView|
        if r.name == name {
            FlagChange::ToggleFavorite.apply(r)
        } else {
            r
        };
    assert(v.regions.map_values(toggle) =~= v.toggle_favorite_region(name).regions);
    lemma_names_stable(v.regions, toggle, shown());
    let set = |r: RegionView|
        if r.name == name {
            FlagChange::Favorite(favorite).apply(r)
        } else {
            r
        };
    assert(v.regions.map_values(set) =~= v.set_favorite(name, favorite).regions);
    lemma_names_stable(v.regions, set, shown());
}

/// Hiding a region takes it off the list of visible regions at once;
/// reading back the settings that were then persisted gives the same
/// settings, so the region stays off the list; and a reset shows every
/// region of the settings again, that one included.
pub proof fn lemma_hide_and_reset(v: ConfigView, name: Seq<char>)
    requires
        v.wf(),
    ensures
        !v.hide_region(name).visible_names().contains(name),
        v.hide_region(name).restore() == v.hide_region(name),
        v.hide_region(name).reset_hidden_regions().visible_names() == v.regions.map_values(
            name_of(),
        ),
        v.has_region(name) ==> v.hide_region(name).reset_hidden_regions().visible_names().contains(
            name,
        ),
{
    broadcast use vstd::seq_lib::group_filter_ensures;

    let hidden = v.hide_region(name);
    lemma_changes_keep_wf(v, name, FlagChange::Hide);
    lemma_restore_round_trip(hidden);
    let listed = hidden.regions.filter(shown());
    if hidden.visible_names().contains(name) {
        let i = choose|i: int| 0 <= i < listed.len() && listed.map_values(name_of())[i] == name;
        assert(shown()(listed[i]));
        assert(listed.contains(listed[i]));
        hidden.regions.lemma_filter_contains_rev(shown(), listed[i]);
        let j = choose|j: int| 0 <= j < hidden.regions.len() && hidden.regions[j] == listed[i];
        assert(hidden.regions[j].hidden);
    }
    let reset = hidden.reset_hidden_regions();
    lemma_filter_keeps_all(reset.regions, shown());
    assert(reset.regions.map_values(name_of()) =~= v.regions.map_values(name_of()));
}

impl Config {
    /// The invariant: no region name occurs twice.
    pub closed spec fn wf(&self) -> bool {
        self.regions.wf()
    }

    /// The settings of a well-formed store are well-formed.
    pub proof fn lemma_view_wf(&self)
        requires
            self.wf(),
        ensures
            self@.wf(),
    {
        assert(self@.regions.map_values(name_of()) =~= self.regions.keys());
    }

    /// The settings hold no more regions than a `usize` can count.
    pub proof fn lemma_view_fits(&self)
        requires
            self.wf(),
        ensures
            self@.regions.len() <= usize::MAX,
    {
        self.regions.lemma_len_fits();
    }

    /// The names of the default catalog.
    pub fn get_default_regions() -> (r: Vec<String>)
        ensures
            r.deep_view() == default_catalog(),
    {
        let mut r: Vec<String> = Vec::new();
        r.push("af-south-1".to_owned());
        r.push("ap-east-1".to_owned());
        r.push("ap-northeast-1".to_owned());
        r.push("ap-northeast-2".to_owned());
        r.push("ap-northeast-3".to_owned());
        r.push("ap-south-1".to_owned());
        r.push("ap-south-2".to_owned());
        r.push("ap-southeast-1".to_owned());
        r.push("ap-southeast-2".to_owned());
        r.push("ap-southeast-3".to_owned());
        r.push("ap-southeast-4".to_owned());
        r.push("ca-central-1".to_owned());
        r.push("ca-west-1".to_owned());
        r.push("eu-central-1".to_owned());
        r.push("eu-central-2".to_owned());
        r.push("eu-north-1".to_owned());
        r.push("eu-south-1".to_owned());
        r.push("eu-south-2".to_owned());
        r.push("eu-west-1".to_owned());
        r.push("eu-west-2".to_owned());
        r.push("eu-west-3".to_owned());
        r.push("il-central-1".to_owned());
        r.push("me-central-1".to_owned());
        r.push("me-south-1".to_owned());
        r.push("sa-east-1".to_owned());
        r.push("us-east-1".to_owned());
        r.push("us-east-2".to_owned());
        r.push("us-west-1".to_owned());
        r.push("us-west-2".to_owned());
        assert(r.deep_view() =~= default_catalog());
        r
    }

    /// The settings at start-up. `parsed` is what the settings file held,
    /// or `None` where it could not be read as a settings object: then the
    /// settings start afresh, and the flag tells that the store is to be
    /// written anew.
    pub fn new(parsed: Option<StoredConfig>) -> (r: (Config, bool))
        ensures
            r.0.wf(),
            r.0@ == (match parsed {
                Some(stored) => stored@.restore(),
                None => ConfigView::fresh(),
            }),
            r.1 == (parsed is None),
    {
        match parsed {
            Some(stored) => (Config::from_stored(stored), false),
            None => (Config::default(), true),
        }
    }

    /// The settings that a persisted settings object amounts to.
    pub fn from_stored(stored: StoredConfig) -> (r: Config)
        ensures
            r.wf(),
            r@ == stored@.restore(),
    {
        let ghost all = stored.regions.deep_view();
        let mut regions: NameMap<RegionConfig> = NameMap::new();
        let mut k: usize = 0;
        proof {
            assert(all.take(0) =~= Seq::empty());
            assert(regions_of(regions.keys(), regions.values()) =~= Seq::empty());
        }
        while k < stored.regions.len()
            invariant
                all == stored.regions.deep_view(),
                k <= stored.regions.len(),
                regions.wf(),
                regions_of(regions.keys(), regions.values()) == restore_regions(all.take(k as int)),
            decreases stored.regions.len() - k,
        {
            let ghost keys = regions.keys();
            let ghost values = regions.values();
            let ghost before = regions_of(keys, values);
            let entry = &stored.regions[k];
            let flags = RegionConfig { hidden: entry.hidden, favorite: entry.favorite };
            regions.insert(entry.name.clone(), flags);
            proof {
                assert(all.take(k + 1).drop_last() =~= all.take(k as int));
                assert(all.take(k + 1).last() == entry@);
                assert(before.map_values(name_of()) =~= keys);
                assert(regions_of(regions.keys(), regions.values()) =~= upsert(before, entry@));
            }
            k += 1;
        }
        assert(all.take(k as int) =~= all);
        Config { recent_timeout: stored.recent_timeout, regions }
    }

    /// The settings object that is to be written to the store.
    pub fn persist(&self) -> (r: StoredConfig)
        requires
            self.wf(),
        ensures
            r@ == self@,
    {
        let n = self.regions.len();
        let mut regions: Vec<StoredRegion> = Vec::new();
        let mut k: usize = 0;
        while k < n
            invariant
                self.wf(),
                n == self.regions.keys().len(),
                k <= n,
                regions.deep_view() == self@.regions.take(k as int),
            decreases n - k,
        {
            let ghost done = regions.deep_view();
            let flags = *self.regions.value(k);
            let entry = StoredRegion {
                name: self.regions.key(k).clone(),
                hidden: flags.hidden,
                favorite: flags.favorite,
            };
            regions.push(entry);
            assert(regions.deep_view() =~= done.push(entry@));
            assert(self@.regions.take(k + 1) =~= self@.regions.take(k as int).push(entry@));
            k += 1;
        }
        assert(self@.regions.take(n as int) =~= self@.regions);
        StoredConfig { recent_timeout: self.recent_timeout, regions }
    }

    /// The names of the favorite regions, or else of the regions that are
    /// not hidden, in catalog order.
    fn names_with(&self, favorites: bool) -> (r: Vec<String>)
        requires
            self.wf(),
        ensures
            favorites ==> r.deep_view() == self@.favorite_names(),
            !favorites ==> r.deep_view() == self@.visible_names(),
    {
        let ghost all = self@.regions;
        let ghost pred = if favorites {
            favored()
        } else {
            shown()
        };
        let n = self.regions.len();
        let mut out: Vec<String> = Vec::new();
        let mut k: usize = 0;
        proof {
            reveal(Seq::filter);
            assert(all.take(0) =~= Seq::empty());
            assert(out.deep_view() =~= all.take(0).filter(pred).map_values(name_of()));
        }
        while k < n
            invariant
                self.wf(),
                all == self@.regions,
                pred == (if favorites {
                    favored()
                } else {
                    shown()
                }),
                n == all.len(),
                n == self.regions.keys().len(),
                k <= n,
                out.deep_view() == all.take(k as int).filter(pred).map_values(name_of()),
            decreases n - k,
        {
            let ghost listed = out.deep_view();
            let flags = *self.regions.value(k);
            let keep = if favorites {
                flags.favorite
            } else {
                !flags.hidden
            };
            if keep {
                out.push(self.regions.key(k).clone());
                assert(out.deep_view() =~= listed.push(all[k as int].name));
            }
            proof {
                all.take(k as int).lemma_filter_push(all[k as int], pred);
                assert(all.take(k + 1) =~= all.take(k as int).push(all[k as int]));
                assert(all.take(k as int).filter(pred).push(all[k as int]).map_values(name_of())
                    =~= all.take(k as int).filter(pred).map_values(name_of()).push(
                    all[k as int].name,
                ));
            }
            k += 1;
        }
        assert(all.take(n as int) =~= all);
        out
    }

    /// The names of the regions that are not hidden, in catalog order.
    pub fn get_visible_regions(&self) -> (r: Vec<String>)
        requires
            self.wf(),
        ensures
            r.deep_view() == self@.visible_names(),
    {
        self.names_with(false)
    }

    /// The names of the favorite regions, in catalog order.
    pub fn get_favorite_regions(&self) -> (r: Vec<String>)
        requires
            self.wf(),
        ensures
            r.deep_view() == self@.favorite_names(),
    {
        self.names_with(true)
    }

    fn change_region(&mut self, region: &String, change: FlagChange)
        requires
            old(self).wf(),
        ensures
            final(self).wf(),
            final(self)@ == old(self)@.change(region@, change),
    {
        let ghost keys = self.regions.keys();
        match self.regions.find(region) {
            Some(i) => {
                let flags = *self.regions.value(i);
                let changed = change.apply_to(flags);
                self.regions.set_value(i, changed);
                proof {
                    let target = old(self)@.change(region@, change).regions;
                    assert forall|j: int| 0 <= j < keys.len() implies self@.regions[j]
                        == target[j] by {
                        if j == i {
                            assert(change.apply(region_of(keys[j], flags)) == region_of(
                                keys[j],
                                changed,
                            ));
                        } else {
                            assert(keys[j] != keys[i as int]);
                        }
                    }
                    assert(self@.regions =~= target);
                }
            },
            None => {
                proof {
                    let target = old(self)@.change(region@, change).regions;
                    assert forall|j: int| 0 <= j < keys.len() implies self@.regions[j]
                        == target[j] by {
                        assert(keys.contains(keys[j]));
                    }
                    assert(self@.regions =~= target);
                }
            },
        }
    }

    /// Hides the region `region`, if there is such a region.
    pub fn hide_region(&mut self, region: String)
        requires
            old(self).wf(),
        ensures
            final(self).wf(),
            final(self)@ == old(self)@.hide_region(region@),
    {
        self.change_region(&region, FlagChange::Hide);
    }

    /// Shows every region again.
    pub fn reset_hidden_regions(&mut self)
        requires
            old(self).wf(),
        ensures
            final(self).wf(),
            final(self)@ == old(self)@.reset_hidden_regions(),
    {
        let n = self.regions.len();
        let ghost keys = self.regions.keys();
        let ghost values = self.regions.values();
        let mut k: usize = 0;
        while k < n
            invariant
                self.wf(),
                self.recent_timeout == old(self).recent_timeout,
                keys == self.regions.keys(),
                keys == old(self).regions.keys(),
                values == old(self).regions.values(),
                n == keys.len(),
                k <= n,
                forall|j: int|
                    0 <= j < k ==> #[trigger] self.regions.values()[j] == (RegionConfig {
                        hidden: false,
                        favorite: values[j].favorite,
                    }),
                forall|j: int| k <= j < n ==> #[trigger] self.regions.values()[j] == values[j],
            decreases n - k,
        {
            let flags = *self.regions.value(k);
            self.regions.set_value(k, RegionConfig { hidden: false, favorite: flags.favorite });
            k += 1;
        }
        assert(self@.regions =~= old(self)@.reset_hidden_regions().regions);
    }

    /// Flips the favorite flag of the region `region`, if there is such a
    /// region.
    pub fn toggle_favorite_region(&mut self, region: String)
        requires
            old(self).wf(),
        ensures
            final(self).wf(),
            final(self)@ == old(self)@.toggle_favorite_region(region@),
    {
        self.change_region(&region, FlagChange::ToggleFavorite);
    }

    /// Takes the favorite flag from the region `region`, if there is such a
    /// region.
    pub fn unset_favorite_region(&mut self, region: String)
        requires
            old(self).wf(),
        ensures
            final(self).wf(),
            final(self)@ == old(self)@.set_favorite(region@, false),
    {
        self.change_region(&region, FlagChange::Favorite(false));
    }

    /// Marks the region `region` as a favorite, if there is such a region.
    pub fn favorite_region(&mut self, region: String)
        requires
            old(self).wf(),
        ensures
            final(self).wf(),
            final(self)@ == old(self)@.set_favorite(region@, true),
    {
        self.change_region(&region, FlagChange::Favorite(true));
    }

    /// The retention window of the connection history, in seconds.
    pub fn get_recent_timeout(&self) -> (r: u64)
        ensures
            r == self@.recent_timeout,
    {
        self.recent_timeout
    }

    /// Sets the retention window of the connection history.
    pub fn set_recent_timeout(&mut self, timeout: u64)
        requires
            old(self).wf(),
        ensures
            final(self).wf(),
            final(self)@ == old(self)@.with_recent_timeout(timeout),
    {
        self.recent_timeout = timeout;
    }
}

impl Default for Config {
    /// The settings of a first run.
    fn default() -> (r: Config)
        ensures
            r.wf(),
            r@ == ConfigView::fresh(),
    {
        let names = Config::get_default_regions();
        let mut regions: NameMap<RegionConfig> = NameMap::new();
        let mut k: usize = 0;
        proof {
            lemma_catalog_distinct();
        }
        while k < names.len()
            invariant
                names.deep_view() == default_catalog(),
                default_catalog().no_duplicates(),
                k <= names.len(),
                regions.wf(),
                regions.keys() == default_catalog().take(k as int),
                regions.values().len() == k,
                forall|i: int|
                    0 <= i < k ==> #[trigger] regions.values()[i] == (RegionConfig {
                        hidden: false,
                        favorite: false,
                    }),
            decreases names.len() - k,
        {
            proof {
                let c = default_catalog();
                if c.take(k as int).contains(c[k as int]) {
                    let i = choose|i: int| 0 <= i < k && c.take(k as int)[i] == c[k as int];
                    assert(c[i] == c[k as int]);
                }
                assert(c.take(k + 1) =~= c.take(k as int).push(c[k as int]));
            }
            regions.insert(names[k].clone(), RegionConfig::default());
            k += 1;
        }
        let r = Config { recent_timeout: DEFAULT_RECENT_TIMEOUT, regions };
        proof {
            assert(default_catalog().take(k as int) =~= default_catalog());
            assert(r@.regions =~= ConfigView::fresh().regions);
        }
        r
    }
}

} // verus!
