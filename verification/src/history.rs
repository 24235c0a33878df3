//! The connection history: for each instance the time of the last
//! connection, with entries older than a retention window left out.
use crate::instance::InstanceInfo;
use crate::name_map::NameMap;
use std::time::SystemTime;
use vstd::prelude::*;

verus! {

/// Reads the system clock with `SystemTime::now` and counts the whole
/// seconds since the Unix epoch with `duration_since`; `None` if the clock
/// stands before the epoch. Nothing is claimed of the number.
#[verifier::external_body]
fn seconds_since_epoch() -> Option<u64> {
    match SystemTime::now().duration_since(SystemTime::UNIX_EPOCH) {
        Ok(elapsed) => Some(elapsed.as_secs()),
        Err(_) => None,
    }
}

/// The current time in seconds since the Unix epoch, as the system clock
/// gives it. A clock that stands before the epoch reads as 0.
pub fn get_current_time() -> u64 {
    time_of_reading(seconds_since_epoch())
}

/// The time that a reading of the clock stands for: the seconds it counted,
/// or 0 where the clock stood before the epoch and gave no count.
pub fn time_of_reading(reading: Option<u64>) -> (r: u64)
    ensures
        r == (match reading {
            Some(seconds) => seconds,
            None => 0,
        }),
{
    match reading {
        Some(seconds) => seconds,
        None => 0,
    }
}

/// One recorded connection.
#[derive(Debug)]
pub struct HistoryEntry {
    instance_id: String,
    when: u64,
}

/// What a [`HistoryEntry`] holds, as plain values.
pub struct HistoryEntryView {
    pub instance_id: Seq<char>,
    /// Epoch seconds of the connection.
    pub when: u64,
}

impl View for HistoryEntry {
    type V = HistoryEntryView;

    closed spec fn view(&self) -> HistoryEntryView {
        HistoryEntryView { instance_id: self.instance_id@, when: self.when }
    }
}

impl DeepView for HistoryEntry {
    type V = HistoryEntryView;

    open spec fn deep_view(&self) -> HistoryEntryView {
        self@
    }
}

impl HistoryEntry {
    /// A connection to `instance_id` made now.
    pub fn new(instance_id: String) -> (r: HistoryEntry)
        ensures
            r@.instance_id == instance_id@,
    {
        HistoryEntry::at(instance_id, get_current_time())
    }

    /// A connection to `instance_id` made at `when`.
    pub fn at(instance_id: String, when: u64) -> (r: HistoryEntry)
        ensures
            r@ == (HistoryEntryView { instance_id: instance_id@, when }),
    {
        HistoryEntry { instance_id, when }
    }

    pub fn get_instance_id(&self) -> (r: &str)
        ensures
            r@ == self@.instance_id,
    {
        self.instance_id.as_str()
    }

    pub fn get_when(&self) -> (r: u64)
        ensures
            r == self@.when,
    {
        self.when
    }
}

/// A connection made at `when` lies before the retention window that ends
/// at `now`.
pub open spec fn expired(when: u64, now: u64, window: u64) -> bool {
    when < now - window
}

/// The history `m` after one more line of the log was read: a line that
/// could not be parsed or that has expired changes nothing, any other line
/// is recorded unless a connection at least as recent is already known.
pub open spec fn replay_line(
    m: Map<Seq<char>, u64>,
    line: Option<HistoryEntryView>,
    now: u64,
    window: u64,
) -> Map<Seq<char>, u64> {
    match line {
        Some(e) => if expired(e.when, now, window) {
            m
        } else if m.contains_key(e.instance_id) && m[e.instance_id] >= e.when {
            m
        } else {
            m.insert(e.instance_id, e.when)
        },
        None => m,
    }
}

/// The history that the lines of a log amount to at time `now`.
pub open spec fn replay(lines: Seq<Option<HistoryEntryView>>, now: u64, window: u64) -> Map<
    Seq<char>,
    u64,
>
    decreases lines.len(),
{
    if lines.len() == 0 {
        Map::empty()
    } else {
        replay_line(replay(lines.drop_last(), now, window), lines.last(), now, window)
    }
}

/// Line `i` of the log records a connection to `id` within the window.
pub open spec fn records(
    lines: Seq<Option<HistoryEntryView>>,
    i: int,
    id: Seq<char>,
    now: u64,
    window: u64,
) -> bool {
    &&& 0 <= i < lines.len()
    &&& lines[i] matches Some(e)
    &&& e.instance_id == id
    &&& !expired(e.when, now, window)
}

/// The map that a list of entries amounts to, later entries overriding
/// earlier ones.
pub open spec fn entries_map(entries: Seq<HistoryEntryView>) -> Map<Seq<char>, u64>
    decreases entries.len(),
{
    if entries.len() == 0 {
        Map::empty()
    } else {
        entries_map(entries.drop_last()).insert(entries.last().instance_id, entries.last().when)
    }
}

/// Retention: after a load an instance is known exactly if some line
/// records a connection to it within the window, and then the time known
/// is that of the latest such line. Lines that have expired leave no trace.
pub proof fn lemma_replay_retention(
    lines: Seq<Option<HistoryEntryView>>,
    now: u64,
    window: u64,
    id: Seq<char>,
)
    ensures
        replay(lines, now, window).contains_key(id) <==> exists|i: int|
            records(lines, i, id, now, window),
        forall|i: int| #[trigger]
            records(lines, i, id, now, window) ==> replay(lines, now, window)[id]
                >= lines[i]->0.when,
        replay(lines, now, window).contains_key(id) ==> exists|i: int|
            records(lines, i, id, now, window) && lines[i]->0.when == replay(
                lines,
                now,
                window,
            )[id],
        replay(lines, now, window).contains_key(id) ==> !expired(
            replay(lines, now, window)[id],
            now,
            window,
        ),
    decreases lines.len(),
{
    if lines.len() > 0 {
        let front = lines.drop_last();
        let last = lines.len() - 1;
        lemma_replay_retention(front, now, window, id);
        let before = replay(front, now, window);
        let after = replay(lines, now, window);
        assert forall|i: int| records(front, i, id, now, window) implies records(
            lines,
            i,
            id,
            now,
            window,
        ) by {}
        assert forall|i: int| records(lines, i, id, now, window) && i != last implies records(
            front,
            i,
            id,
            now,
            window,
        ) by {}
        if before.contains_key(id) {
            let w = choose|i: int|
                records(front, i, id, now, window) && front[i]->0.when == before[id];
            assert(records(lines, w, id, now, window));
        }
        if after.contains_key(id) {
            if records(lines, last, id, now, window) && after[id] == lines[last]->0.when {
            } else {
                assert(before.contains_key(id));
                assert(after[id] == before[id]);
                let w = choose|i: int|
                    records(front, i, id, now, window) && front[i]->0.when == before[id];
                assert(records(lines, w, id, now, window) && lines[w]->0.when == after[id]);
            }
        }
        if exists|i: int| records(lines, i, id, now, window) {
            let w = choose|i: int| records(lines, i, id, now, window);
            if w != last {
                assert(records(front, w, id, now, window));
            }
        }
        assert forall|i: int| #[trigger]
            records(lines, i, id, now, window) implies after[id] >= lines[i]->0.when by {
            if i != last {
                assert(records(front, i, id, now, window));
            }
        }
    }
}

/// The connection history.
#[derive(Debug)]
pub struct History {
    entries: NameMap<u64>,
}

impl View for History {
    type V = Map<Seq<char>, u64>;

    /// Instance identifier to epoch seconds of the last connection.
    closed spec fn view(&self) -> Map<Seq<char>, u64> {
        self.entries.as_map()
    }
}

impl History {
    /// The invariant: one entry per instance.
    pub closed spec fn wf(&self) -> bool {
        self.entries.wf()
    }

    /// An empty history.
    pub fn new() -> (r: History)
        ensures
            r.wf(),
            r@ == Map::<Seq<char>, u64>::empty(),
    {
        let r = History { entries: NameMap::new() };
        assert(r@ =~= Map::<Seq<char>, u64>::empty());
        r
    }

    /// The history that the lines of the log amount to at time `now`, with
    /// a retention window of `window` seconds. A line that could not be
    /// parsed is given as `None` and skipped.
    pub fn read(lines: &Vec<Option<HistoryEntry>>, now: u64, window: u64) -> (r: History)
        ensures
            r.wf(),
            r@ == replay(lines.deep_view(), now, window),
    {
        let ghost all = lines.deep_view();
        let cutoff = now.saturating_sub(window);
        let mut entries: NameMap<u64> = NameMap::new();
        let mut k: usize = 0;
        proof {
            assert(all.take(0) =~= Seq::empty());
            assert(entries.as_map() =~= Map::<Seq<char>, u64>::empty());
        }
        while k < lines.len()
            invariant
                all == lines.deep_view(),
                cutoff == (if now >= window {
                    now - window
                } else {
                    0
                }),
                k <= lines.len(),
                entries.wf(),
                entries.as_map() == replay(all.take(k as int), now, window),
            decreases lines.len() - k,
        {
            let ghost before = entries.as_map();
            match &lines[k] {
                Some(entry) => {
                    if entry.when >= cutoff {
                        let newer = match entries.get(&entry.instance_id) {
                            Some(known) => known < entry.when,
                            None => true,
                        };
                        if newer {
                            entries.insert(entry.instance_id.clone(), entry.when);
                        }
                    }
                },
                None => {},
            }
            proof {
                assert(all.take(k + 1).drop_last() =~= all.take(k as int));
                assert(all.take(k + 1).last() == all[k as int]);
                assert(entries.as_map() == replay_line(before, all[k as int], now, window));
            }
            k += 1;
        }
        assert(all.take(k as int) =~= all);
        History { entries }
    }

    /// Records a connection: the entry takes the place of any earlier one
    /// for the same instance.
    pub fn save(&mut self, entry: HistoryEntry)
        requires
            old(self).wf(),
        ensures
            final(self).wf(),
            final(self)@ == old(self)@.insert(entry@.instance_id, entry@.when),
    {
        self.entries.insert(entry.instance_id, entry.when);
    }

    /// Forgets every connection.
    pub fn reset(&mut self)
        ensures
            final(self).wf(),
            final(self)@ == Map::<Seq<char>, u64>::empty(),
    {
        self.entries.clear();
        assert(self@ =~= Map::<Seq<char>, u64>::empty());
    }

    /// The time of the last connection to `instance_id`.
    pub fn get(&self, instance_id: &String) -> (r: Option<u64>)
        requires
            self.wf(),
        ensures
            r == (if self@.contains_key(instance_id@) {
                Some(self@[instance_id@])
            } else {
                None
            }),
    {
        self.entries.get(instance_id)
    }

    /// The entries, one for each instance, as they are to be written back.
    pub fn entries(&self) -> (r: Vec<HistoryEntry>)
        requires
            self.wf(),
        ensures
            entries_map(r.deep_view()) == self@,
            r.deep_view().map_values(|e: HistoryEntryView| e.instance_id).no_duplicates(),
    {
        let n = self.entries.len();
        let mut out: Vec<HistoryEntry> = Vec::new();
        let mut k: usize = 0;
        let ghost keys = self.entries.keys();
        let ghost values = self.entries.values();
        while k < n
            invariant
                self.wf(),
                keys == self.entries.keys(),
                values == self.entries.values(),
                n == keys.len(),
                k <= n,
                out.len() == k,
                forall|i: int|
                    0 <= i < k ==> #[trigger] out.deep_view()[i] == (HistoryEntryView {
                        instance_id: keys[i],
                        when: values[i],
                    }),
            decreases n - k,
        {
            let ghost listed = out.deep_view();
            let entry = HistoryEntry::at(self.entries.key(k).clone(), *self.entries.value(k));
            out.push(entry);
            assert(out.deep_view() =~= listed.push(entry@));
            k += 1;
        }
        proof {
            lemma_entries_map_of_listing(out.deep_view(), keys, values);
            assert(entries_map(out.deep_view()) =~= self@);
            let ids = out.deep_view().map_values(|e: HistoryEntryView| e.instance_id);
            assert(ids =~= keys);
        }
        out
    }

    /// The same records, each with the time of the last connection to it
    /// that this history knows, or none.
    pub fn annotate(&self, instances: Vec<InstanceInfo>) -> (r: Vec<InstanceInfo>)
        requires
            self.wf(),
        ensures
            r.len() == instances.len(),
            forall|i: int|
                0 <= i < r.len() ==> #[trigger] r.deep_view()[i] == (crate::instance::InstanceView {
                    last_access: if self@.contains_key(instances.deep_view()[i].instance_id) {
                        Some(self@[instances.deep_view()[i].instance_id])
                    } else {
                        None
                    },
                    ..instances.deep_view()[i]
                }),
    {
        let mut out: Vec<InstanceInfo> = Vec::new();
        let mut k: usize = 0;
        while k < instances.len()
            invariant
                self.wf(),
                k <= instances.len(),
                out.len() == k,
                forall|i: int|
                    0 <= i < k ==> #[trigger] out.deep_view()[i] == (crate::instance::InstanceView {
                        last_access: if self@.contains_key(instances.deep_view()[i].instance_id) {
                            Some(self@[instances.deep_view()[i].instance_id])
                        } else {
                            None
                        },
                        ..instances.deep_view()[i]
                    }),
            decreases instances.len() - k,
        {
            let ghost done = out.deep_view();
            let id = instances[k].get_instance_id();
            let last_access = self.get(&id);
            let record = instances[k].clone().with_last_access(last_access);
            out.push(record);
            assert(out.deep_view() =~= done.push(record@));
            k += 1;
        }
        out
    }
}

/// A listing of a map's entries, each name once, amounts to that map.
proof fn lemma_entries_map_of_listing(
    entries: Seq<HistoryEntryView>,
    keys: Seq<Seq<char>>,
    values: Seq<u64>,
)
    requires
        keys.no_duplicates(),
        entries.len() == keys.len(),
        keys.len() == values.len(),
        forall|i: int|
            0 <= i < entries.len() ==> #[trigger] entries[i] == (HistoryEntryView {
                instance_id: keys[i],
                when: values[i],
            }),
    ensures
        forall|k: Seq<char>| #[trigger] entries_map(entries).contains_key(k) <==> keys.contains(k),
        forall|i: int| 0 <= i < keys.len() ==> entries_map(entries)[#[trigger] keys[i]] == values[i],
    decreases entries.len(),
{
    if entries.len() > 0 {
        let n = entries.len() - 1;
        let front = entries.drop_last();
        lemma_entries_map_of_listing(front, keys.drop_last(), values.drop_last());
        assert(entries[n].instance_id == keys[n]);
        assert forall|k: Seq<char>| #[trigger]
            entries_map(entries).contains_key(k) <==> keys.contains(k) by {
            if keys.drop_last().contains(k) {
                let i = choose|i: int| 0 <= i < keys.drop_last().len() && keys.drop_last()[i] == k;
                assert(keys[i] == k);
            }
            if keys.contains(k) {
                let i = choose|i: int| 0 <= i < keys.len() && keys[i] == k;
                if i < n {
                    assert(keys.drop_last()[i] == k);
                }
            }
            if k == keys[n] {
                assert(keys.contains(k));
            }
            assert(entries_map(front).contains_key(k) <==> keys.drop_last().contains(k));
        }
        assert forall|i: int| 0 <= i < keys.len() implies entries_map(entries)[#[trigger] keys[i]]
            == values[i] by {
            if i < n {
                assert(keys.drop_last()[i] == keys[i]);
                assert(keys[i] != keys[n]);
            }
        }
    }
}

} // verus!
