//! The history of what the data plugins returned.
//!
//! One series per pair of data plugin and input source, oldest entry first.
//! A series keeps its newest [`MAX_VALUES`] entries; appending to a full
//! series drops the oldest one.
//!
//! The store is a list of series in the order in which they were started.
//! Each holds the names of its data plugin and its input source and a queue
//! of entries. No two series of the list carry the same pair of names and
//! none is empty, so the list is a map from pairs of names to entries: that
//! map is the store's view. A series is found by going through the list;
//! there are as many series as pairs of a data plugin and an input source.

use crate::document::clone_value;
use std::collections::VecDeque;
use vstd::prelude::*;

verus! {

/// The number of entries that one series keeps.
pub const MAX_VALUES: usize = 10000;

/// One stored result: its timestamp in milliseconds since the Unix epoch,
/// and the value.
pub type Entry = (i64, bson::Bson);

/// A series is named by the data plugin that produced it and the input
/// source that the frames came from.
pub type SeriesKey = (Seq<char>, Seq<char>);

/// The history as a map from series to entries, oldest first.
pub type History = Map<SeriesKey, Seq<Entry>>;

/// The history after appending `entry` to the series `key`.
pub open spec fn appended(history: History, key: SeriesKey, entry: Entry) -> History {
    let before = if history.contains_key(key) {
        history[key]
    } else {
        Seq::<Entry>::empty()
    };
    let grown = before.push(entry);
    history.insert(
        key,
        if grown.len() > MAX_VALUES {
            grown.drop_first()
        } else {
            grown
        },
    )
}

/// The `count` newest entries of a series, newest first; all of them where
/// the series holds fewer.
pub open spec fn newest(series: Seq<Entry>, count: nat) -> Seq<Entry> {
    Seq::new(
        if count < series.len() {
            count
        } else {
            series.len()
        },
        |i: int| series[series.len() - 1 - i],
    )
}

/// No series holds more than [`MAX_VALUES`] entries.
pub open spec fn bounded(history: History) -> bool {
    forall|key: SeriesKey| #[trigger]
        history.contains_key(key) ==> history[key].len() <= MAX_VALUES
}

/// Timestamps never go back along the series.
pub open spec fn chronological(series: Seq<Entry>) -> bool {
    forall|i: int, j: int| 0 <= i <= j < series.len() ==> series[i].0 <= series[j].0
}

/// The history after the `later` appends, one after the other.
pub open spec fn appended_all(history: History, later: Seq<(SeriesKey, Entry)>) -> History
    decreases later.len(),
{
    if later.len() == 0 {
        history
    } else {
        appended(appended_all(history, later.drop_last()), later.last().0, later.last().1)
    }
}

/// The history that a sequence of appends builds, starting from nothing.
pub open spec fn replayed(appends: Seq<(SeriesKey, Entry)>) -> History {
    appended_all(Map::empty(), appends)
}

/// Bounded history, one step: an append keeps every series within
/// [`MAX_VALUES`] entries.
pub proof fn lemma_append_keeps_bound(history: History, key: SeriesKey, entry: Entry)
    requires
        bounded(history),
    ensures
        bounded(appended(history, key, entry)),
{
    let after = appended(history, key, entry);
    assert forall|k: SeriesKey| #[trigger] after.contains_key(k) implies after[k].len()
        <= MAX_VALUES by {
        if k != key {
            assert(history.contains_key(k));
        }
    }
}

/// Bounded history: whatever is appended and in whatever order, no series
/// ever holds more than [`MAX_VALUES`] entries.
pub proof fn lemma_history_is_bounded(appends: Seq<(SeriesKey, Entry)>)
    ensures
        bounded(replayed(appends)),
    decreases appends.len(),
{
    if appends.len() > 0 {
        lemma_history_is_bounded(appends.drop_last());
        lemma_append_keeps_bound(
            replayed(appends.drop_last()),
            appends.last().0,
            appends.last().1,
        );
    }
}

/// Order preservation, one series: read newest first, a series whose
/// timestamps never go back yields timestamps that never go forward.
pub proof fn lemma_newest_is_ordered(series: Seq<Entry>, count: nat)
    requires
        chronological(series),
    ensures
        forall|i: int, j: int|
            0 <= i <= j < newest(series, count).len() ==> newest(series, count)[i].0 >= newest(
                series,
                count,
            )[j].0,
{
}

/// Appends arrive in order where, within each series, a later append never
/// carries an earlier timestamp.
pub open spec fn in_order(appends: Seq<(SeriesKey, Entry)>) -> bool {
    forall|i: int, j: int|
        0 <= i <= j < appends.len() && appends[i].0 == appends[j].0 ==> appends[i].1.0
            <= appends[j].1.0
}

/// Whether `entry` is among the appends to the series `key`.
pub open spec fn was_appended(appends: Seq<(SeriesKey, Entry)>, key: SeriesKey, entry: Entry) -> bool {
    exists|m: int| 0 <= m < appends.len() && #[trigger] appends[m] == (key, entry)
}

/// Every entry of the history was appended to its series at some point.
pub proof fn lemma_entries_were_appended(appends: Seq<(SeriesKey, Entry)>)
    ensures
        forall|key: SeriesKey, k: int|
            replayed(appends).contains_key(key) && 0 <= k < replayed(appends)[key].len()
                ==> was_appended(appends, key, #[trigger] replayed(appends)[key][k]),
    decreases appends.len(),
{
    if appends.len() > 0 {
        let earlier = appends.drop_last();
        let before = replayed(earlier);
        let after = replayed(appends);
        let last = appends.len() - 1;
        lemma_entries_were_appended(earlier);
        assert forall|key: SeriesKey, k: int|
            after.contains_key(key) && 0 <= k < after[key].len() implies was_appended(
            appends,
            key,
            #[trigger] after[key][k],
        ) by {
            if key == appends[last].0 && after[key][k] == appends[last].1 {
                assert(appends[last] == (key, after[key][k]));
            } else {
                let origin = if key == appends[last].0 && before[key].len() + 1 > MAX_VALUES {
                    k + 1
                } else {
                    k
                };
                assert(before.contains_key(key));
                assert(before[key][origin] == after[key][k]);
                assert(was_appended(earlier, key, before[key][origin]));
                let m = choose|m: int|
                    0 <= m < earlier.len() && #[trigger] earlier[m] == (key, before[key][origin]);
                assert(appends[m] == earlier[m]);
            }
        }
    }
}

/// Order preservation: where appends arrive in order, every series of the
/// history is chronological, so every read of it comes newest first with
/// timestamps that never go forward.
pub proof fn lemma_history_is_ordered(appends: Seq<(SeriesKey, Entry)>)
    requires
        in_order(appends),
    ensures
        forall|key: SeriesKey| #[trigger]
            replayed(appends).contains_key(key) ==> chronological(replayed(appends)[key]),
        forall|key: SeriesKey, count: nat, i: int, j: int|
            replayed(appends).contains_key(key) && 0 <= i <= j < newest(
                replayed(appends)[key],
                count,
            ).len() ==> (#[trigger] newest(replayed(appends)[key], count)[i]).0 >= (
            #[trigger] newest(replayed(appends)[key], count)[j]).0,
    decreases appends.len(),
{
    if appends.len() > 0 {
        let earlier = appends.drop_last();
        let before = replayed(earlier);
        let after = replayed(appends);
        let key = appends.last().0;
        let entry = appends.last().1;
        assert forall|i: int, j: int|
            0 <= i <= j < earlier.len() && earlier[i].0 == earlier[j].0 implies earlier[i].1.0
            <= earlier[j].1.0 by {
            assert(earlier[i] == appends[i] && earlier[j] == appends[j]);
        }
        lemma_history_is_ordered(earlier);
        lemma_entries_were_appended(earlier);
        assert forall|k: SeriesKey| #[trigger] after.contains_key(k) implies chronological(
            after[k],
        ) by {
            if k == key {
                let old_series = if before.contains_key(key) {
                    before[key]
                } else {
                    Seq::<Entry>::empty()
                };
                let grown = old_series.push(entry);
                assert forall|i: int| 0 <= i < old_series.len() implies old_series[i].0
                    <= entry.0 by {
                    assert(was_appended(earlier, key, before[key][i]));
                    let m = choose|m: int|
                        0 <= m < earlier.len() && #[trigger] earlier[m] == (key, before[key][i]);
                    assert(appends[m] == earlier[m]);
                    assert(appends[appends.len() - 1].0 == key);
                }
                assert(chronological(grown));
            } else {
                assert(before.contains_key(k));
            }
        }
    }
    assert forall|key: SeriesKey, count: nat, i: int, j: int|
        replayed(appends).contains_key(key) && 0 <= i <= j < newest(
            replayed(appends)[key],
            count,
        ).len() implies (#[trigger] newest(replayed(appends)[key], count)[i]).0 >= (
    #[trigger] newest(replayed(appends)[key], count)[j]).0 by {
        lemma_newest_is_ordered(replayed(appends)[key], count);
    }
}

/// Visibility: once an entry is appended to a series, a read of that series
/// that asks for at least one entry returns it first.
pub proof fn lemma_append_is_visible(history: History, key: SeriesKey, entry: Entry, count: nat)
    requires
        count >= 1,
    ensures
        appended(history, key, entry).contains_key(key),
        newest(appended(history, key, entry)[key], count).len() >= 1,
        newest(appended(history, key, entry)[key], count)[0] == entry,
{
}

/// An append leaves every other series as it was.
pub proof fn lemma_append_is_local(history: History, key: SeriesKey, entry: Entry, other: SeriesKey)
    requires
        other != key,
    ensures
        appended(history, key, entry).contains_key(other) == history.contains_key(other),
        history.contains_key(other) ==> appended(history, key, entry)[other] == history[other],
{
}

/// How many of the appends go to the series `key`.
pub open spec fn appends_to(later: Seq<(SeriesKey, Entry)>, key: SeriesKey) -> nat
    decreases later.len(),
{
    if later.len() == 0 {
        0
    } else if later.last().0 == key {
        appends_to(later.drop_last(), key) + 1
    } else {
        appends_to(later.drop_last(), key)
    }
}

/// Visibility lasts until eviction: an entry that was appended to a series
/// is still read back after any later appends of which fewer than
/// [`MAX_VALUES`] go to that series, whatever goes to other series in
/// between, by every read that asks for more entries than that series got
/// since. It comes right after those later entries.
pub proof fn lemma_append_stays_visible(
    history: History,
    key: SeriesKey,
    entry: Entry,
    later: Seq<(SeriesKey, Entry)>,
    count: nat,
)
    requires
        appends_to(later, key) < MAX_VALUES,
        count > appends_to(later, key),
    ensures
        ({
            let after = appended_all(appended(history, key, entry), later);
            let since = appends_to(later, key);
            &&& after.contains_key(key)
            &&& newest(after[key], count).len() > since
            &&& newest(after[key], count)[since as int] == entry
        }),
    decreases later.len(),
{
    let after = appended_all(appended(history, key, entry), later);
    let since = appends_to(later, key);
    if later.len() == 0 {
        lemma_append_is_visible(history, key, entry, count);
    } else {
        let before = appended_all(appended(history, key, entry), later.drop_last());
        lemma_append_stays_visible(history, key, entry, later.drop_last(), count);
        if later.last().0 == key {
            let series = before[key];
            let grown = series.push(later.last().1);
            assert(series.len() >= since);
            assert(series[series.len() - since] == entry);
            if grown.len() > MAX_VALUES {
                assert(after[key] == grown.drop_first());
                assert(after[key][after[key].len() - 1 - since] == grown[after[key].len() - since]);
            } else {
                assert(after[key] == grown);
            }
            assert(after[key][after[key].len() - 1 - since] == entry);
        } else {
            lemma_append_is_local(before, later.last().0, later.last().1, key);
        }
    }
}

struct Series {
    producer: String,
    source: String,
    entries: VecDeque<Entry>,
}

impl Series {
    spec fn key(self) -> SeriesKey {
        (self.producer@, self.source@)
    }
}

/// The store of all series.
pub struct DataManager {
    series: Vec<Series>,
}

impl DataManager {
    #[verifier::type_invariant]
    spec fn well_formed(self) -> bool {
        &&& forall|i: int, j: int|
            0 <= i < j < self.series.len() ==> (#[trigger] self.series[i]).key() != (
            #[trigger] self.series[j]).key()
        &&& forall|i: int|
            0 <= i < self.series.len() ==> 0 < (#[trigger] self.series[i]).entries@.len()
                <= MAX_VALUES
    }

    spec fn position(self, key: SeriesKey) -> int {
        choose|i: int| 0 <= i < self.series.len() && (#[trigger] self.series[i]).key() == key
    }

    /// The history that the store holds.
    pub closed spec fn view(&self) -> History {
        Map::new(
            |key: SeriesKey|
                exists|i: int| 0 <= i < self.series.len() && (#[trigger] self.series[i]).key() == key,
            |key: SeriesKey| self.series[self.position(key)].entries@,
        )
    }

    proof fn lemma_lookup(self, i: int)
        requires
            self.well_formed(),
            0 <= i < self.series.len(),
        ensures
            self@.contains_key(self.series[i].key()),
            self@[self.series[i].key()] == self.series[i].entries@,
            self@[self.series[i].key()].len() <= MAX_VALUES,
    {
        let key = self.series[i].key();
        let p = self.position(key);
        assert(0 <= p < self.series.len() && self.series[p].key() == key);
        assert(p == i);
    }

    /// A well-formed store holds exactly the history whose series are those
    /// of the list, each with the entries of its queue.
    proof fn lemma_holds(self, history: History)
        requires
            self.well_formed(),
            forall|i: int|
                0 <= i < self.series.len() ==> history.contains_key(
                    (#[trigger] self.series[i]).key(),
                ) && history[self.series[i].key()] == self.series[i].entries@,
            forall|key: SeriesKey| #[trigger]
                history.contains_key(key) ==> exists|i: int|
                    0 <= i < self.series.len() && (#[trigger] self.series[i]).key() == key,
        ensures
            self@ == history,
    {
        assert forall|key: SeriesKey| self@.contains_key(key) implies history.contains_key(
            key,
        ) && self@[key] == history[key] by {
            let i = self.position(key);
            self.lemma_lookup(i);
        }
        assert(self@ =~= history);
    }

    /// An empty store.
    pub fn new() -> (store: Self)
        ensures
            store@ == Map::<SeriesKey, Seq<Entry>>::empty(),
    {
        let store = DataManager { series: Vec::new() };
        assert(store@ =~= Map::<SeriesKey, Seq<Entry>>::empty());
        store
    }

    fn find(&self, producer: &String, source: &String) -> (found: Option<usize>)
        ensures
            match found {
                Some(i) => i < self.series.len() && self.series[i as int].key() == (
                    producer@,
                    source@,
                ),
                None => forall|i: int|
                    0 <= i < self.series.len() ==> (#[trigger] self.series[i]).key() != (
                        producer@,
                        source@,
                    ),
            },
    {
        let mut i: usize = 0;
        while i < self.series.len()
            invariant
                i <= self.series.len(),
                forall|k: int|
                    0 <= k < i ==> (#[trigger] self.series[k]).key() != (producer@, source@),
            decreases self.series.len() - i,
        {
            if self.series[i].producer == *producer && self.series[i].source == *source {
                return Some(i);
            }
            i += 1;
        }
        None
    }

    /// Appends a result to the series of `producer` and `source`, which it
    /// starts where there is none yet. A series that is full loses its oldest
    /// entry.
    pub fn add(&mut self, producer: String, source: String, time: i64, value: bson::Bson)
        ensures
            final(self)@ == appended(old(self)@, (producer@, source@), (time, value)),
            bounded(final(self)@),
    {
        proof {
            use_type_invariant(&*self);
        }
        let ghost key = (producer@, source@);
        let ghost before = *self;
        let found = self.find(&producer, &source);
        let mut series: Vec<Series> = Vec::new();
        std::mem::swap(&mut self.series, &mut series);
        match found {
            Some(i) => {
                let target = &mut series[i];
                if target.entries.len() >= MAX_VALUES {
                    target.entries.pop_front();
                }
                target.entries.push_back((time, value));
            },
            None => {
                let mut entries: VecDeque<Entry> = VecDeque::new();
                entries.push_back((time, value));
                series.push(Series { producer, source, entries });
            },
        }
        self.series = series;
        proof {
            let after = *self;
            let entry = (time, value);
            let target = appended(before@, key, entry);
            let length = before.series.len() as int;
            let at = match found {
                Some(i) => i as int,
                None => length,
            };
            match found {
                Some(i) => {
                    before.lemma_lookup(at);
                    assert(before.series[at].entries@.push(entry).drop_first()
                        =~= before.series[at].entries@.drop_first().push(entry));
                },
                None => {
                    assert(!before@.contains_key(key));
                    assert(Seq::<Entry>::empty().push(entry) =~= after.series[at].entries@);
                },
            }
            assert(after.series[at].key() == key && after.series[at].entries@ == target[key]);
            assert forall|j: int| 0 <= j < length && j != at implies (#[trigger] after.series[j])
                == before.series[j] by {}
            assert(after.well_formed());
            assert forall|j: int| 0 <= j < after.series.len() implies target.contains_key(
                (#[trigger] after.series[j]).key(),
            ) && target[after.series[j].key()] == after.series[j].entries@ by {
                if j != at {
                    before.lemma_lookup(j);
                }
            }
            assert forall|k: SeriesKey| #[trigger] target.contains_key(k) implies exists|j: int|
                0 <= j < after.series.len() && (#[trigger] after.series[j]).key() == k by {
                let j = if k == key {
                    at
                } else {
                    before.position(k)
                };
                assert(after.series[j].key() == k);
            }
            after.lemma_holds(target);
            lemma_append_keeps_bound(before@, key, entry);
        }
    }

    /// The `x` newest entries of the series of `producer` and `source`,
    /// newest first, or all of them where the series holds fewer; `None`
    /// where nothing was ever appended to that series.
    pub fn get_last(&self, producer: &String, source: &String, x: usize) -> (last: Option<
        Vec<Entry>,
    >)
        ensures
            match last {
                Some(entries) => {
                    &&& self@.contains_key((producer@, source@))
                    &&& entries@ == newest(self@[(producer@, source@)], x as nat)
                    &&& entries.len() <= MAX_VALUES
                },
                None => !self@.contains_key((producer@, source@)),
            },
    {
        proof {
            use_type_invariant(self);
        }
        match self.find(producer, source) {
            None => None,
            Some(i) => {
                proof {
                    self.lemma_lookup(i as int);
                }
                let entries = &self.series[i].entries;
                let total = entries.len();
                let wanted = if x < total {
                    x
                } else {
                    total
                };
                let mut collected: Vec<Entry> = Vec::new();
                let mut k: usize = 0;
                while k < wanted
                    invariant
                        k <= wanted <= total,
                        total == entries@.len(),
                        collected.len() == k,
                        forall|m: int|
                            0 <= m < k ==> collected[m] == entries@[total - 1 - m],
                    decreases wanted - k,
                {
                    let datum = &entries[total - 1 - k];
                    collected.push((datum.0, clone_value(&datum.1)));
                    k += 1;
                }
                assert(collected@ =~= newest(entries@, x as nat));
                Some(collected)
            },
        }
    }
}

} // verus!