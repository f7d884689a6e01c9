//! What holds of scrapes whatever the ports and their counters.
use vstd::prelude::*;

use crate::hash::label_hash;
use crate::scrape::{
    discard_stale, exported_value, exports_only_tracked, filed, is_tracked, port_key,
    previous_counters, reading_keys, record, record_all, relabelled, scrape, seeded, series_kept,
    stale_hashes, Reading, ScrapeState,
};

verus! {

/// Dropping ports that have disappeared leaves no series without a port that is still there.
pub proof fn law_discard_exports_only_tracked(state: ScrapeState, active: Set<Seq<char>>)
    requires
        exports_only_tracked(state),
    ensures
        exports_only_tracked(discard_stale(state, active)),
{
    let after = discard_stale(state, active);
    assert forall|i: int, hash: u64|
        0 <= i < after.series.len() && #[trigger] after.series[i].contains_key(hash) implies is_tracked(
        after,
        hash,
        after.series[i][hash].0,
    ) by {
        assert(state.series[i].contains_key(hash));
        let labels = state.series[i][hash].0;
        let key = choose|key: Seq<char>| #[trigger]
            state.labels.contains_key(key) && state.labels[key] == labels;
        assert(!stale_hashes(state, active).contains(hash));
        assert(after.labels.contains_key(key));
    }
}

/// Exporting a port leaves no series with label values that no port carries any more.
pub proof fn law_record_exports_only_tracked(state: ScrapeState, reading: Reading)
    requires
        exports_only_tracked(state),
    ensures
        exports_only_tracked(record(state, reading)),
{
    let after = record(state, reading);
    let kept = series_kept(state, reading);
    let own = label_hash(reading.labels);
    assert(after.labels.contains_key(reading.key));
    assert forall|i: int, hash: u64|
        0 <= i < after.series.len() && #[trigger] after.series[i].contains_key(hash) implies is_tracked(
        after,
        hash,
        after.series[i][hash].0,
    ) by {
        if kept[i].contains_key(hash) {
            assert(state.series[i].contains_key(hash));
            let labels = state.series[i][hash].0;
            let key = choose|key: Seq<char>| #[trigger]
                state.labels.contains_key(key) && state.labels[key] == labels;
            assert(after.series[i][hash].0 == labels);
            assert(after.labels.contains_key(key));
            assert(after.labels[key] == labels);
        } else {
            assert(hash == own);
        }
    }
}

/// After a scrape, every exported series carries the label values of a port that it read.
pub proof fn law_scrape_exports_only_tracked(state: ScrapeState, readings: Seq<Reading>)
    requires
        exports_only_tracked(state),
    ensures
        exports_only_tracked(scrape(state, readings)),
{
    let kept = discard_stale(state, reading_keys(readings).to_set());
    law_discard_exports_only_tracked(state, reading_keys(readings).to_set());
    lemma_record_all_exports_only_tracked(kept, readings);
}

proof fn lemma_record_all_exports_only_tracked(state: ScrapeState, readings: Seq<Reading>)
    requires
        exports_only_tracked(state),
    ensures
        exports_only_tracked(record_all(state, readings)),
    decreases readings.len(),
{
    if readings.len() > 0 {
        lemma_record_all_exports_only_tracked(state, readings.drop_last());
        law_record_exports_only_tracked(
            record_all(state, readings.drop_last()),
            readings.last(),
        );
    }
}

/// What a scrape keeps of a state before it reads the ports.
spec fn start(state: ScrapeState, readings: Seq<Reading>) -> ScrapeState {
    discard_stale(state, reading_keys(readings).to_set())
}

/// The state of a scrape once the first `n` ports have been exported.
spec fn partway(state: ScrapeState, readings: Seq<Reading>, n: int) -> ScrapeState {
    record_all(start(state, readings), readings.take(n))
}

proof fn lemma_partway_step(state: ScrapeState, readings: Seq<Reading>, n: int)
    requires
        0 <= n < readings.len(),
    ensures
        partway(state, readings, n + 1) == record(partway(state, readings, n), readings[n]),
{
    assert(readings.take(n + 1).drop_last() =~= readings.take(n));
}

proof fn lemma_partway_ends(state: ScrapeState, readings: Seq<Reading>)
    ensures
        partway(state, readings, 0) == start(state, readings),
        partway(state, readings, readings.len() as int) == scrape(state, readings),
{
    assert(readings.take(0) =~= seq![]);
    assert(readings.take(readings.len() as int) =~= readings);
}

/// Every key of the ports that a scrape keeps or reads is the key of a port that it reads.
proof fn lemma_partway_keys(state: ScrapeState, readings: Seq<Reading>, n: int, key: Seq<char>)
    requires
        0 <= n <= readings.len(),
        partway(state, readings, n).labels.contains_key(key) || partway(
            state,
            readings,
            n,
        ).values.contains_key(key),
    ensures
        reading_keys(readings).contains(key),
    decreases n,
{
    if n == 0 {
        lemma_partway_ends(state, readings);
        assert(reading_keys(readings).to_set().contains(key));
    } else {
        lemma_partway_step(state, readings, n - 1);
        if key == readings[n - 1].key {
            assert(reading_keys(readings)[n - 1] == key);
        } else {
            lemma_partway_keys(state, readings, n - 1, key);
        }
    }
}

/// A port that has been read stays filed.
proof fn lemma_partway_filed(state: ScrapeState, readings: Seq<Reading>, n: int, i: int)
    requires
        0 <= i < n <= readings.len(),
    ensures
        partway(state, readings, n).labels.contains_key(readings[i].key),
        partway(state, readings, n).values.contains_key(readings[i].key),
    decreases n,
{
    lemma_partway_step(state, readings, n - 1);
    if i < n - 1 {
        lemma_partway_filed(state, readings, n - 1, i);
    }
}

/// After a scrape, counters and labels are kept for the ports that it read and for no others.
pub proof fn law_scrape_keeps_exactly_active_ports(state: ScrapeState, readings: Seq<Reading>)
    ensures
        scrape(state, readings).values.dom() == reading_keys(readings).to_set(),
        scrape(state, readings).labels.dom() == reading_keys(readings).to_set(),
{
    let after = scrape(state, readings);
    let keys = reading_keys(readings);
    lemma_partway_ends(state, readings);
    assert forall|key: Seq<char>| after.values.dom().contains(key) || after.labels.dom().contains(
        key,
    ) implies #[trigger] keys.to_set().contains(key) by {
        lemma_partway_keys(state, readings, readings.len() as int, key);
    }
    assert forall|key: Seq<char>| #[trigger]
        keys.to_set().contains(key) implies after.values.dom().contains(key)
        && after.labels.dom().contains(key) by {
        let i = choose|i: int| 0 <= i < keys.len() && keys[i] == key;
        lemma_partway_filed(state, readings, readings.len() as int, i);
    }
    assert(after.values.dom() =~= keys.to_set());
    assert(after.labels.dom() =~= keys.to_set());
}

/// Reading `j` is the last of the first `n` with its key.
pub open spec fn last_before(readings: Seq<Reading>, n: int, j: int) -> bool {
    0 <= j < n && forall|k: int| j < k < n ==> (#[trigger] readings[k]).key != readings[j].key
}

/// A port is filed with what its last reading found.
proof fn lemma_partway_last(state: ScrapeState, readings: Seq<Reading>, n: int, j: int)
    requires
        n <= readings.len(),
        last_before(readings, n, j),
    ensures
        partway(state, readings, n).labels[readings[j].key] == readings[j].labels,
        partway(state, readings, n).values[readings[j].key] == readings[j].counters,
    decreases n,
{
    lemma_partway_step(state, readings, n - 1);
    if j < n - 1 {
        assert(readings[n - 1].key != readings[j].key);
        assert(last_before(readings, n - 1, j));
        lemma_partway_last(state, readings, n - 1, j);
    }
}

/// Among the first `n` readings of a port, one is the last.
pub proof fn lemma_last_exists(readings: Seq<Reading>, n: int, i: int) -> (j: int)
    requires
        0 <= i < n <= readings.len(),
    ensures
        last_before(readings, n, j),
        readings[j].key == readings[i].key,
    decreases n - i,
{
    if exists|k: int| i < k < n && (#[trigger] readings[k]).key == readings[i].key {
        let k = choose|k: int| i < k < n && (#[trigger] readings[k]).key == readings[i].key;
        lemma_last_exists(readings, n, k)
    } else {
        i
    }
}

/// After a scrape, the counters and labels that are kept of a port are those of its last reading.
pub proof fn law_scrape_keeps_last_reading(state: ScrapeState, readings: Seq<Reading>, i: int)
    requires
        0 <= i < readings.len(),
        forall|k: int| i < k < readings.len() ==> (#[trigger] readings[k]).key != readings[i].key,
    ensures
        scrape(state, readings).values[readings[i].key] == readings[i].counters,
        scrape(state, readings).labels[readings[i].key] == readings[i].labels,
{
    lemma_partway_ends(state, readings);
    lemma_partway_last(state, readings, readings.len() as int, i);
}

/// After a scrape, every exported series carries the label values of a port that it read: nothing
/// is exported for a port that has disappeared, or for a pod that no longer has the device.
pub proof fn law_scrape_exports_no_stale_series(
    state: ScrapeState,
    readings: Seq<Reading>,
    metric: int,
    hash: u64,
) -> (i: int)
    requires
        exports_only_tracked(state),
        0 <= metric < scrape(state, readings).series.len(),
        scrape(state, readings).series[metric].contains_key(hash),
    ensures
        0 <= i < readings.len(),
        scrape(state, readings).series[metric][hash].0 == readings[i].labels,
        hash == label_hash(readings[i].labels),
        scrape(state, readings).labels[readings[i].key] == readings[i].labels,
{
    let after = scrape(state, readings);
    let keys = reading_keys(readings);
    law_scrape_exports_only_tracked(state, readings);
    law_scrape_keeps_exactly_active_ports(state, readings);
    let labels = after.series[metric][hash].0;
    assert(is_tracked(after, hash, labels));
    let key = choose|key: Seq<char>| #[trigger]
        after.labels.contains_key(key) && after.labels[key] == labels;
    assert(keys.to_set().contains(key));
    let i = choose|i: int| 0 <= i < keys.len() && keys[i] == key;
    let j = lemma_last_exists(readings, readings.len() as int, i);
    law_scrape_keeps_last_reading(state, readings, j);
    j
}

/// Reading `i` is the only one of its port, and no other port takes its series: none is exported
/// under its hash, and none that is read after it gives up, with its old label values, that hash.
pub open spec fn stands_alone(state: ScrapeState, readings: Seq<Reading>, i: int) -> bool {
    forall|j: int|
        0 <= j < readings.len() && j != i ==> {
            &&& (#[trigger] readings[j]).key != readings[i].key
            &&& label_hash(readings[j].labels) != label_hash(readings[i].labels)
            &&& i < j && relabelled(state, readings[j]) ==> label_hash(
                state.labels[readings[j].key],
            ) != label_hash(readings[i].labels)
        }
}

/// Before a port is read, what is kept of it is what was kept before the scrape.
proof fn lemma_partway_untouched(state: ScrapeState, readings: Seq<Reading>, n: int, i: int)
    requires
        0 <= n <= i < readings.len(),
        forall|k: int| 0 <= k < n ==> (#[trigger] readings[k]).key != readings[i].key,
    ensures
        partway(state, readings, n).labels.contains_key(readings[i].key)
            == state.labels.contains_key(readings[i].key),
        state.labels.contains_key(readings[i].key) ==> partway(
            state,
            readings,
            n,
        ).labels[readings[i].key] == state.labels[readings[i].key],
        partway(state, readings, n).series.len() == state.series.len(),
        previous_counters(partway(state, readings, n), readings[i].key) == previous_counters(
            state,
            readings[i].key,
        ),
    decreases n,
{
    let keys = reading_keys(readings);
    if n == 0 {
        lemma_partway_ends(state, readings);
        assert(keys[i] == readings[i].key);
        assert(keys.to_set().contains(readings[i].key));
    } else {
        lemma_partway_step(state, readings, n - 1);
        lemma_partway_untouched(state, readings, n - 1, i);
        assert(readings[n - 1].key != readings[i].key);
    }
    assert(previous_counters(partway(state, readings, n), readings[i].key) =~= previous_counters(
        state,
        readings[i].key,
    ));
}

/// The label values that a port is known with, when it is read as number `n`, are those of an
/// earlier reading of it or, where there is none, those from before the scrape.
proof fn lemma_partway_labels(state: ScrapeState, readings: Seq<Reading>, n: int, i: int)
    requires
        0 <= n <= i < readings.len(),
        partway(state, readings, n).labels.contains_key(readings[i].key),
    ensures
        ({
            let labels = partway(state, readings, n).labels[readings[i].key];
            ||| exists|k: int|
                0 <= k < n && (#[trigger] readings[k]).key == readings[i].key
                    && readings[k].labels == labels
            ||| state.labels.contains_key(readings[i].key) && state.labels[readings[i].key]
                == labels
        }),
{
    if exists|k: int| 0 <= k < n && (#[trigger] readings[k]).key == readings[i].key {
        let k = choose|k: int| 0 <= k < n && (#[trigger] readings[k]).key == readings[i].key;
        let last = lemma_last_exists(readings, n, k);
        lemma_partway_last(state, readings, n, last);
        assert(readings[last].key == readings[i].key);
    } else {
        lemma_partway_untouched(state, readings, n, i);
    }
}

proof fn lemma_partway_exports_only_tracked(state: ScrapeState, readings: Seq<Reading>, n: int)
    requires
        exports_only_tracked(state),
        0 <= n <= readings.len(),
    ensures
        exports_only_tracked(partway(state, readings, n)),
{
    law_discard_exports_only_tracked(state, reading_keys(readings).to_set());
    lemma_record_all_exports_only_tracked(start(state, readings), readings.take(n));
}

/// A series that is there when a port that stands alone is read was exported for that port, under
/// the same label values.
proof fn lemma_partway_own_series(
    state: ScrapeState,
    readings: Seq<Reading>,
    i: int,
    metric: int,
)
    requires
        exports_only_tracked(state),
        stands_alone(state, readings, i),
        0 <= i < readings.len(),
        0 <= metric < partway(state, readings, i).series.len(),
        series_kept(partway(state, readings, i), readings[i])[metric].contains_key(
            label_hash(readings[i].labels),
        ),
    ensures
        series_kept(partway(state, readings, i), readings[i])[metric][label_hash(
            readings[i].labels,
        )].0 == readings[i].labels,
{
    let keys = reading_keys(readings);
    let before = partway(state, readings, i);
    let hash = label_hash(readings[i].labels);
    lemma_partway_exports_only_tracked(state, readings, i);
    let labels = before.series[metric][hash].0;
    assert(before.series[metric].contains_key(hash));
    assert(is_tracked(before, hash, labels));
    let key = choose|key: Seq<char>| #[trigger]
        before.labels.contains_key(key) && before.labels[key] == labels;
    lemma_partway_keys(state, readings, i, key);
    let j = choose|j: int| 0 <= j < keys.len() && keys[j] == key;
    assert(readings[j].key == key);
    if j < i {
        let last = lemma_last_exists(readings, i, j);
        lemma_partway_last(state, readings, i, last);
        assert(label_hash(readings[last].labels) != hash);
    } else {
        lemma_partway_labels(state, readings, i, j);
        if j > i {
            assert(readings[j].key != readings[i].key);
        }
    }
    assert(j == i);
}

/// A port that stands alone and has been read is exported with its label values and the change of
/// its counters.
proof fn lemma_partway_exported(
    state: ScrapeState,
    readings: Seq<Reading>,
    n: int,
    i: int,
    metric: int,
)
    requires
        exports_only_tracked(state),
        stands_alone(state, readings, i),
        0 <= i < n <= readings.len(),
        0 <= metric < state.series.len(),
    ensures
        partway(state, readings, n).series.len() == state.series.len(),
        partway(state, readings, n).series[metric].contains_key(label_hash(readings[i].labels)),
        partway(state, readings, n).series[metric][label_hash(readings[i].labels)] == (
            readings[i].labels,
            exported_value(state, readings[i], metric),
        ),
    decreases n,
{
    let last = readings[n - 1];
    let before = partway(state, readings, n - 1);
    let kept = series_kept(before, last);
    let hash = label_hash(readings[i].labels);
    lemma_partway_step(state, readings, n - 1);
    if i < n - 1 {
        lemma_partway_exported(state, readings, n - 1, i, metric);
        assert(readings[n - 1].key != readings[i].key);
        if relabelled(before, last) {
            lemma_partway_labels(state, readings, n - 1, n - 1);
        }
        assert(kept[metric].contains_key(hash));
        assert(kept[metric][hash] == before.series[metric][hash]);
    } else {
        lemma_partway_untouched(state, readings, n - 1, n - 1);
        if kept[metric].contains_key(hash) {
            lemma_partway_own_series(state, readings, i, metric);
        }
    }
}

/// A scrape exports a port that stands alone, for every metric, with its label values and the
/// change of the counter since the last reading of the port.
pub proof fn law_scrape_exports_port(
    state: ScrapeState,
    readings: Seq<Reading>,
    metric: int,
    i: int,
)
    requires
        exports_only_tracked(state),
        stands_alone(state, readings, i),
        0 <= i < readings.len(),
        0 <= metric < state.series.len(),
    ensures
        scrape(state, readings).series[metric].contains_key(label_hash(readings[i].labels)),
        scrape(state, readings).series[metric][label_hash(readings[i].labels)] == (
            readings[i].labels,
            exported_value(state, readings[i], metric),
        ),
{
    lemma_partway_ends(state, readings);
    lemma_partway_exported(state, readings, readings.len() as int, i, metric);
}

/// Where every port stands alone, a scrape exports for every metric exactly one series for each
/// port that it read: with the label values of the port, and the change of the counter since the
/// last reading of the port.
pub proof fn law_scrape_exports_one_series_per_port(
    state: ScrapeState,
    readings: Seq<Reading>,
    metric: int,
)
    requires
        exports_only_tracked(state),
        forall|i: int| 0 <= i < readings.len() ==> #[trigger] stands_alone(state, readings, i),
        0 <= metric < state.series.len(),
    ensures
        scrape(state, readings).series.len() == state.series.len(),
        forall|i: int|
            0 <= i < readings.len() ==> {
                &&& scrape(state, readings).series[metric].contains_key(
                    label_hash((#[trigger] readings[i]).labels),
                )
                &&& scrape(state, readings).series[metric][label_hash(readings[i].labels)] == (
                    readings[i].labels,
                    exported_value(state, readings[i], metric),
                )
            },
        forall|hash: u64| #[trigger]
            scrape(state, readings).series[metric].contains_key(hash) ==> exists|i: int|
                0 <= i < readings.len() && hash == label_hash((#[trigger] readings[i]).labels),
{
    lemma_series_len(start(state, readings), readings);
    assert forall|i: int| 0 <= i < readings.len() implies {
        &&& scrape(state, readings).series[metric].contains_key(
            label_hash((#[trigger] readings[i]).labels),
        )
        &&& scrape(state, readings).series[metric][label_hash(readings[i].labels)] == (
            readings[i].labels,
            exported_value(state, readings[i], metric),
        )
    } by {
        assert(stands_alone(state, readings, i));
        law_scrape_exports_port(state, readings, metric, i);
    }
    assert forall|hash: u64| #[trigger]
        scrape(state, readings).series[metric].contains_key(hash) implies exists|i: int|
        0 <= i < readings.len() && hash == label_hash((#[trigger] readings[i]).labels) by {
        let i = law_scrape_exports_no_stale_series(state, readings, metric, hash);
        assert(hash == label_hash(readings[i].labels));
    }
}

proof fn lemma_series_len(state: ScrapeState, readings: Seq<Reading>)
    ensures
        record_all(state, readings).series.len() == state.series.len(),
    decreases readings.len(),
{
    if readings.len() > 0 {
        lemma_series_len(state, readings.drop_last());
    }
}

/// The last reading of every port found the counters that are read now.
pub open spec fn counters_unchanged(state: ScrapeState, readings: Seq<Reading>) -> bool {
    forall|i: int|
        0 <= i < readings.len() ==> {
            &&& state.values.contains_key((#[trigger] readings[i]).key)
            &&& state.values[readings[i].key] == readings[i].counters
        }
}

proof fn lemma_partway_unchanged(state: ScrapeState, readings: Seq<Reading>, n: int)
    requires
        counters_unchanged(state, readings),
        0 <= n <= readings.len(),
    ensures
        counters_unchanged(partway(state, readings, n), readings),
    decreases n,
{
    if n == 0 {
        lemma_partway_ends(state, readings);
        assert forall|i: int| 0 <= i < readings.len() implies start(
            state,
            readings,
        ).values.contains_key((#[trigger] readings[i]).key) by {
            assert(reading_keys(readings)[i] == readings[i].key);
            assert(reading_keys(readings).to_set().contains(readings[i].key));
        }
    } else {
        lemma_partway_unchanged(state, readings, n - 1);
        lemma_partway_step(state, readings, n - 1);
        assert forall|i: int| 0 <= i < readings.len() implies partway(
            state,
            readings,
            n,
        ).values[(#[trigger] readings[i]).key] == readings[i].counters by {
            assert(state.values[readings[i].key] == readings[i].counters);
            assert(state.values[readings[n - 1].key] == readings[n - 1].counters);
        }
    }
}

proof fn lemma_partway_zero(
    state: ScrapeState,
    readings: Seq<Reading>,
    n: int,
    i: int,
    metric: int,
)
    requires
        counters_unchanged(state, readings),
        0 <= i < n <= readings.len(),
        0 <= metric < state.series.len(),
    ensures
        partway(state, readings, n).series.len() == state.series.len(),
        partway(state, readings, n).series[metric].contains_key(label_hash(readings[i].labels))
            ==> partway(state, readings, n).series[metric][label_hash(readings[i].labels)].1 == 0,
    decreases n,
{
    let before = partway(state, readings, n - 1);
    let last = readings[n - 1];
    lemma_partway_step(state, readings, n - 1);
    lemma_partway_unchanged(state, readings, n - 1);
    lemma_series_len(start(state, readings), readings.take(n - 1));
    assert(before.values[last.key] == last.counters);
    assert(exported_value(before, last, metric) == 0);
    if i < n - 1 {
        lemma_partway_zero(state, readings, n - 1, i, metric);
    }
}

/// Ports whose counters have not changed since their last reading are exported with zero.
pub proof fn law_unchanged_counters_export_zero(
    state: ScrapeState,
    readings: Seq<Reading>,
    metric: int,
    hash: u64,
)
    requires
        exports_only_tracked(state),
        counters_unchanged(state, readings),
        0 <= metric < state.series.len(),
        scrape(state, readings).series[metric].contains_key(hash),
    ensures
        scrape(state, readings).series[metric][hash].1 == 0,
{
    lemma_partway_ends(state, readings);
    lemma_series_len(start(state, readings), readings);
    let i = law_scrape_exports_no_stale_series(state, readings, metric, hash);
    lemma_partway_zero(state, readings, readings.len() as int, i, metric);
}

/// Two scrapes read the same ports with the same counters, whatever the labels, and readings of one
/// port agree.
pub open spec fn same_counters(first: Seq<Reading>, second: Seq<Reading>) -> bool {
    &&& first.len() == second.len()
    &&& forall|i: int|
        0 <= i < first.len() ==> (#[trigger] first[i]).key == second[i].key && first[i].counters
            == second[i].counters
    &&& forall|i: int, j: int|
        0 <= i < first.len() && 0 <= j < first.len() && (#[trigger] first[i]).key == (
        #[trigger] first[j]).key ==> first[i].counters == first[j].counters
}

/// Where readings of one port agree, a port that has been read is filed with its counters.
pub proof fn lemma_filed(values: Map<Seq<char>, Seq<u64>>, readings: Seq<Reading>, i: int)
    requires
        0 <= i < readings.len(),
        forall|j: int, k: int|
            0 <= j < readings.len() && 0 <= k < readings.len() && (#[trigger] readings[j]).key == (
            #[trigger] readings[k]).key ==> readings[j].counters == readings[k].counters,
    ensures
        filed(values, readings).contains_key(readings[i].key),
        filed(values, readings)[readings[i].key] == readings[i].counters,
    decreases readings.len(),
{
    let rest = readings.drop_last();
    if readings[i].key == readings.last().key {
        assert(readings[readings.len() - 1] == readings.last());
    } else {
        assert(rest[i] == readings[i]);
        assert forall|j: int, k: int|
            0 <= j < rest.len() && 0 <= k < rest.len() && (#[trigger] rest[j]).key == (
            #[trigger] rest[k]).key implies rest[j].counters == rest[k].counters by {
            assert(rest[j] == readings[j] && rest[k] == readings[k]);
        }
        lemma_filed(values, rest, i);
    }
}

/// Only ports that have been read are filed.
pub proof fn lemma_filed_keys(readings: Seq<Reading>, key: Seq<char>)
    requires
        filed(Map::empty(), readings).contains_key(key),
    ensures
        reading_keys(readings).contains(key),
    decreases readings.len(),
{
    let keys = reading_keys(readings);
    if readings.last().key == key {
        assert(keys[readings.len() - 1] == key);
    } else {
        let rest = readings.drop_last();
        lemma_filed_keys(rest, key);
        let i = choose|i: int| 0 <= i < rest.len() && reading_keys(rest)[i] == key;
        assert(keys[i] == key);
    }
}

/// Once the ports have been read for the first time, a scrape that finds the same counters exports
/// zeros, however much the counters had counted before.
pub proof fn law_first_scrape_exports_zero(
    seed: Seq<Reading>,
    readings: Seq<Reading>,
    metrics: nat,
    metric: int,
    hash: u64,
)
    requires
        same_counters(seed, readings),
        0 <= metric < metrics,
        scrape(seeded(seed, metrics), readings).series[metric].contains_key(hash),
    ensures
        scrape(seeded(seed, metrics), readings).series[metric][hash].1 == 0,
{
    let state = seeded(seed, metrics);
    assert forall|i: int| 0 <= i < readings.len() implies {
        &&& state.values.contains_key((#[trigger] readings[i]).key)
        &&& state.values[readings[i].key] == readings[i].counters
    } by {
        assert(seed[i].key == readings[i].key);
        lemma_filed(Map::empty(), seed, i);
    }
    law_unchanged_counters_export_zero(state, readings, metric, hash);
}

/// A scrape that finds the counters as the scrape before it left them exports zeros.
pub proof fn law_idle_scrape_exports_zero(
    state: ScrapeState,
    first: Seq<Reading>,
    second: Seq<Reading>,
    metric: int,
    hash: u64,
)
    requires
        exports_only_tracked(state),
        same_counters(first, second),
        0 <= metric < state.series.len(),
        scrape(scrape(state, first), second).series[metric].contains_key(hash),
    ensures
        scrape(scrape(state, first), second).series[metric][hash].1 == 0,
{
    let middle = scrape(state, first);
    law_scrape_exports_only_tracked(state, first);
    law_scrape_keeps_exactly_active_ports(state, first);
    lemma_series_len(start(state, first), first);
    assert forall|i: int| 0 <= i < second.len() implies {
        &&& middle.values.contains_key((#[trigger] second[i]).key)
        &&& middle.values[second[i].key] == second[i].counters
    } by {
        assert(first[i].key == second[i].key);
        assert(reading_keys(first)[i] == first[i].key);
        assert(reading_keys(first).to_set().contains(first[i].key));
        let j = lemma_last_exists(first, first.len() as int, i);
        law_scrape_keeps_last_reading(state, first, j);
    }
    law_unchanged_counters_export_zero(middle, second, metric, hash);
}

/// A scrape that reads what the scrape before it read leaves the counters and labels that are kept
/// as they were.
pub proof fn law_repeated_scrape_keeps_tables(state: ScrapeState, readings: Seq<Reading>)
    ensures
        scrape(scrape(state, readings), readings).values == scrape(state, readings).values,
        scrape(scrape(state, readings), readings).labels == scrape(state, readings).labels,
{
    let first = scrape(state, readings);
    let second = scrape(first, readings);
    let keys = reading_keys(readings);
    law_scrape_keeps_exactly_active_ports(state, readings);
    law_scrape_keeps_exactly_active_ports(first, readings);
    assert forall|key: Seq<char>| #[trigger] keys.to_set().contains(key) implies second.values[key]
        == first.values[key] && second.labels[key] == first.labels[key] by {
        let i = choose|i: int| 0 <= i < keys.len() && keys[i] == key;
        let j = lemma_last_exists(readings, readings.len() as int, i);
        law_scrape_keeps_last_reading(state, readings, j);
        law_scrape_keeps_last_reading(first, readings, j);
    }
    assert(second.values =~= first.values);
    assert(second.labels =~= first.labels);
}

/// Readings of one port carry the same label values.
pub open spec fn labels_agree(readings: Seq<Reading>) -> bool {
    forall|i: int, j: int|
        0 <= i < readings.len() && 0 <= j < readings.len() && (#[trigger] readings[i]).key == (
        #[trigger] readings[j]).key ==> readings[i].labels == readings[j].labels
}

/// Where a port gives up, with its old label values, the hash of a port read before it, that hash
/// is exported again.
pub open spec fn no_series_lost(state: ScrapeState, readings: Seq<Reading>) -> bool {
    forall|i: int, j: int|
        #![trigger readings[i], readings[j]]
        0 <= i < j < readings.len() && relabelled(state, readings[j]) && label_hash(
            state.labels[readings[j].key],
        ) == label_hash(readings[i].labels) ==> exported_from(
            readings,
            j,
            label_hash(readings[i].labels),
        )
}

/// Reading `n` or a later one is exported under `hash`.
pub open spec fn exported_from(readings: Seq<Reading>, n: int, hash: u64) -> bool {
    exists|k: int|
        n <= k < readings.len() && label_hash((#[trigger] readings[k]).labels) == hash
}

/// No reading after `i` is exported under its hash.
pub open spec fn last_under_hash(readings: Seq<Reading>, i: int) -> bool {
    0 <= i < readings.len() && !exported_from(readings, i + 1, label_hash(readings[i].labels))
}

proof fn lemma_last_under_hash_exists(readings: Seq<Reading>, i: int) -> (j: int)
    requires
        0 <= i < readings.len(),
    ensures
        last_under_hash(readings, j),
        label_hash(readings[j].labels) == label_hash(readings[i].labels),
    decreases readings.len() - i,
{
    let hash = label_hash(readings[i].labels);
    if exported_from(readings, i + 1, hash) {
        let k = choose|k: int|
            i < k < readings.len() && label_hash((#[trigger] readings[k]).labels) == hash;
        lemma_last_under_hash_exists(readings, k)
    } else {
        i
    }
}

/// The last port under a hash keeps its series.
proof fn lemma_partway_last_stays(
    state: ScrapeState,
    readings: Seq<Reading>,
    n: int,
    i: int,
    metric: int,
)
    requires
        labels_agree(readings),
        no_series_lost(state, readings),
        last_under_hash(readings, i),
        i < n <= readings.len(),
        0 <= metric < state.series.len(),
    ensures
        partway(state, readings, n).series[metric].contains_key(label_hash(readings[i].labels)),
        (forall|j: int|
            0 <= j < i ==> (#[trigger] readings[j]).key != readings[i].key) ==> partway(
            state,
            readings,
            n,
        ).series[metric][label_hash(readings[i].labels)].1 == exported_value(
            state,
            readings[i],
            metric,
        ),
    decreases n,
{
    let before = partway(state, readings, n - 1);
    let last = readings[n - 1];
    let hash = label_hash(readings[i].labels);
    lemma_partway_step(state, readings, n - 1);
    lemma_series_len(start(state, readings), readings.take(n - 1));
    if i == n - 1 && forall|j: int|
        0 <= j < i ==> (#[trigger] readings[j]).key != readings[i].key {
        lemma_partway_untouched(state, readings, i, i);
    }
    if i < n - 1 {
        lemma_partway_last_stays(state, readings, n - 1, i, metric);
        if relabelled(before, last) {
            lemma_partway_labels(state, readings, n - 1, n - 1);
            assert(relabelled(state, last));
            if label_hash(state.labels[last.key]) == hash {
                assert(exported_from(readings, n - 1, hash));
                assert(exported_from(readings, i + 1, hash));
            }
        }
    }
}

/// Where no series is lost, a scrape exports a series under the hash of every port that it read.
pub proof fn law_scrape_exports_every_port(
    state: ScrapeState,
    readings: Seq<Reading>,
    metric: int,
    i: int,
)
    requires
        labels_agree(readings),
        no_series_lost(state, readings),
        0 <= i < readings.len(),
        0 <= metric < state.series.len(),
    ensures
        scrape(state, readings).series[metric].contains_key(label_hash(readings[i].labels)),
{
    let j = lemma_last_under_hash_exists(readings, i);
    lemma_partway_ends(state, readings);
    lemma_partway_last_stays(state, readings, readings.len() as int, j, metric);
}

/// Where ports share a series, it shows the change of the counter of the port that was read last.
pub proof fn law_shared_series_shows_last_port(
    state: ScrapeState,
    readings: Seq<Reading>,
    metric: int,
    i: int,
)
    requires
        labels_agree(readings),
        no_series_lost(state, readings),
        last_under_hash(readings, i),
        forall|j: int| 0 <= j < i ==> (#[trigger] readings[j]).key != readings[i].key,
        0 <= metric < state.series.len(),
    ensures
        scrape(state, readings).series[metric].contains_key(label_hash(readings[i].labels)),
        scrape(state, readings).series[metric][label_hash(readings[i].labels)].1 == exported_value(
            state,
            readings[i],
            metric,
        ),
{
    lemma_partway_ends(state, readings);
    lemma_partway_last_stays(state, readings, readings.len() as int, i, metric);
}

/// Every port that is read now was last exported with the same label values, and no other port was.
spec fn settled(state: ScrapeState, readings: Seq<Reading>) -> bool {
    &&& state.labels.dom() == reading_keys(readings).to_set()
    &&& forall|i: int|
        0 <= i < readings.len() ==> state.labels[(#[trigger] readings[i]).key] == readings[i].labels
}

/// Nothing is removed where ports and label values stay the same.
proof fn lemma_partway_settled(
    state: ScrapeState,
    readings: Seq<Reading>,
    n: int,
    metric: int,
)
    requires
        settled(state, readings),
        0 <= n <= readings.len(),
        0 <= metric < state.series.len(),
    ensures
        partway(state, readings, n).labels == state.labels,
        partway(state, readings, n).series.len() == state.series.len(),
        forall|hash: u64| #[trigger]
            state.series[metric].contains_key(hash) ==> {
                &&& partway(state, readings, n).series[metric].contains_key(hash)
                &&& partway(state, readings, n).series[metric][hash].0
                    == state.series[metric][hash].0
            },
    decreases n,
{
    let keys = reading_keys(readings);
    if n == 0 {
        lemma_partway_ends(state, readings);
        assert(stale_hashes(state, keys.to_set()) =~= Set::empty());
        assert(start(state, readings).labels =~= state.labels);
    } else {
        let last = readings[n - 1];
        lemma_partway_settled(state, readings, n - 1, metric);
        lemma_partway_step(state, readings, n - 1);
        assert(keys[n - 1] == last.key);
        assert(keys.to_set().contains(last.key));
        assert(partway(state, readings, n).labels =~= state.labels);
    }
}

/// A scrape that reads what the scrape before it read leaves the exported series as they were, but
/// for their values, where the scrape before lost none.
pub proof fn law_repeated_scrape_keeps_series(
    state: ScrapeState,
    readings: Seq<Reading>,
    metric: int,
)
    requires
        exports_only_tracked(state),
        labels_agree(readings),
        no_series_lost(state, readings),
        0 <= metric < state.series.len(),
    ensures
        scrape(scrape(state, readings), readings).series[metric].dom() == scrape(
            state,
            readings,
        ).series[metric].dom(),
        forall|hash: u64| #[trigger]
            scrape(state, readings).series[metric].contains_key(hash) ==> scrape(
                scrape(state, readings),
                readings,
            ).series[metric][hash].0 == scrape(state, readings).series[metric][hash].0,
{
    let first = scrape(state, readings);
    let second = scrape(first, readings);
    lemma_series_len(start(state, readings), readings);
    lemma_series_len(start(first, readings), readings);
    law_scrape_exports_only_tracked(state, readings);
    law_scrape_keeps_exactly_active_ports(state, readings);
    assert forall|i: int| 0 <= i < readings.len() implies first.labels[(
    #[trigger] readings[i]).key] == readings[i].labels by {
        let j = lemma_last_exists(readings, readings.len() as int, i);
        law_scrape_keeps_last_reading(state, readings, j);
    }
    lemma_partway_ends(first, readings);
    lemma_partway_settled(first, readings, readings.len() as int, metric);
    assert forall|hash: u64| #[trigger]
        second.series[metric].contains_key(hash) implies first.series[metric].contains_key(hash) by {
        let i = law_scrape_exports_no_stale_series(first, readings, metric, hash);
        law_scrape_exports_every_port(state, readings, metric, i);
    }
    assert(second.series[metric].dom() =~= first.series[metric].dom());
}

/// Ports of devices whose names hold no slash have keys of their own.
pub proof fn law_port_keys_are_unique(
    device: Seq<char>,
    port: Seq<char>,
    other_device: Seq<char>,
    other_port: Seq<char>,
)
    requires
        !device.contains('/'),
        !other_device.contains('/'),
        port_key(device, port) == port_key(other_device, other_port),
    ensures
        device == other_device,
        port == other_port,
{
    let key = port_key(device, port);
    let other = port_key(other_device, other_port);
    assert(key[device.len() as int] == '/');
    assert(other[other_device.len() as int] == '/');
    if device.len() < other_device.len() {
        assert(other[device.len() as int] == other_device[device.len() as int]);
    }
    if other_device.len() < device.len() {
        assert(key[other_device.len() as int] == device[other_device.len() as int]);
    }
    assert(key.take(device.len() as int) =~= device);
    assert(other.take(device.len() as int) =~= other_device);
    assert(key.skip((device.len() + 1) as int) =~= port);
    assert(other.skip((device.len() + 1) as int) =~= other_port);
}

} // verus!
