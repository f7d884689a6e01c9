//! What holds of the scrapes of a provider, whatever it finds in sysfs.
use vstd::prelude::*;

use crate::counter::{counter_delta, gauge_value};
use crate::gauges::{accepts_next, after_registrations, Family, RegistryState};
use crate::hash::label_hash;
use crate::laws::{
    labels_agree, law_discard_exports_only_tracked, law_first_scrape_exports_zero,
    law_idle_scrape_exports_zero, law_port_keys_are_unique, law_record_exports_only_tracked,
    law_repeated_scrape_keeps_series, law_repeated_scrape_keeps_tables,
    law_scrape_exports_no_stale_series, law_scrape_exports_one_series_per_port,
    law_scrape_exports_port, law_scrape_keeps_exactly_active_ports, law_scrape_keeps_last_reading,
    lemma_filed, lemma_filed_keys, lemma_last_exists, no_series_lost, same_counters, stands_alone,
};
use crate::metric_ids::law_metric_ids_are_distinct;
use crate::metrics::law_metric_names_are_distinct;
use crate::platform::{label_names, ComputePlatform};
use crate::pods::PodsView;
use crate::scrape::{
    discard_stale, lemma_readings_ignore_state, port_key, previous_counters, reading_keys, record,
    record_all, scrape, seeded, ProviderView, Reading, ScrapeState,
};
use crate::sysfs::{device_ports, SysfsSnapshot};

verus! {

/// No device name holds a slash, as no file name does.
pub open spec fn names_are_file_names(sysfs: SysfsSnapshot) -> bool {
    forall|i: int|
        0 <= i < device_ports(sysfs).len() ==> !(#[trigger] device_ports(sysfs)[i]).0.contains('/')
}

proof fn lemma_same_counters(
    provider: ProviderView,
    sysfs: SysfsSnapshot,
    pods: PodsView,
    other_pods: PodsView,
)
    requires
        names_are_file_names(sysfs),
    ensures
        same_counters(provider.readings(sysfs, pods), provider.readings(sysfs, other_pods)),
{
    let pairs = device_ports(sysfs);
    let first = provider.readings(sysfs, pods);
    assert forall|i: int, j: int|
        0 <= i < first.len() && 0 <= j < first.len() && (#[trigger] first[i]).key == (
        #[trigger] first[j]).key implies first[i].counters == first[j].counters by {
        law_port_keys_are_unique(pairs[i].0, pairs[i].1, pairs[j].0, pairs[j].1);
    }
}

/// The first scrape of a new provider exports zeros where the counters have not changed since the
/// provider was made.
pub proof fn law_first_update_exports_zero(
    provider: ProviderView,
    sysfs: SysfsSnapshot,
    pods: PodsView,
    metric: int,
    hash: u64,
)
    requires
        names_are_file_names(sysfs),
        provider.state == seeded(provider.readings(sysfs, None), provider.metrics()),
        0 <= metric < provider.metrics(),
        provider.updated(sysfs, pods).state.series[metric].contains_key(hash),
    ensures
        provider.updated(sysfs, pods).state.series[metric][hash].1 == 0,
{
    lemma_same_counters(provider, sysfs, None, pods);
    law_first_scrape_exports_zero(
        provider.readings(sysfs, None),
        provider.readings(sysfs, pods),
        provider.metrics(),
        metric,
        hash,
    );
}

/// A scrape exports zeros where the counters have not changed since the scrape before, also where
/// devices have moved to other pods.
pub proof fn law_idle_update_exports_zero(
    provider: ProviderView,
    sysfs: SysfsSnapshot,
    pods: PodsView,
    later_pods: PodsView,
    metric: int,
    hash: u64,
)
    requires
        provider.wf(),
        names_are_file_names(sysfs),
        0 <= metric < provider.metrics(),
        provider.updated(sysfs, pods).updated(sysfs, later_pods).state.series[metric].contains_key(hash),
    ensures
        provider.updated(sysfs, pods).updated(sysfs, later_pods).state.series[metric][hash].1 == 0,
{
    lemma_same_counters(provider, sysfs, pods, later_pods);
    lemma_readings_ignore_state(
        provider,
        provider.updated(sysfs, pods).state,
        sysfs,
        later_pods,
    );
    law_idle_scrape_exports_zero(
        provider.state,
        provider.readings(sysfs, pods),
        provider.readings(sysfs, later_pods),
        metric,
        hash,
    );
}

/// After a scrape, the provider keeps counters of the ports that it found and of no others.
pub proof fn law_update_keeps_exactly_found_ports(
    provider: ProviderView,
    sysfs: SysfsSnapshot,
    pods: PodsView,
    key: Seq<char>,
)
    ensures
        provider.updated(sysfs, pods).state.values.contains_key(key) <==> exists|i: int|
            0 <= i < device_ports(sysfs).len() && key == port_key(
                (#[trigger] device_ports(sysfs)[i]).0,
                device_ports(sysfs)[i].1,
            ),
{
    let readings = provider.readings(sysfs, pods);
    let keys = reading_keys(readings);
    let pairs = device_ports(sysfs);
    law_scrape_keeps_exactly_active_ports(provider.state, readings);
    if keys.to_set().contains(key) {
        let i = choose|i: int| 0 <= i < keys.len() && keys[i] == key;
        assert(key == port_key(pairs[i].0, pairs[i].1));
    }
    if exists|i: int|
        0 <= i < pairs.len() && key == port_key((#[trigger] pairs[i]).0, pairs[i].1) {
        let i = choose|i: int|
            0 <= i < pairs.len() && key == port_key((#[trigger] pairs[i]).0, pairs[i].1);
        assert(keys[i] == key);
    }
}

/// After a scrape, every exported series carries the labels that a port which it found has now:
/// instance, device and port, and on Kubernetes the node and the pod that has the device.
pub proof fn law_update_exports_current_labels(
    provider: ProviderView,
    sysfs: SysfsSnapshot,
    pods: PodsView,
    metric: int,
    hash: u64,
) -> (i: int)
    requires
        provider.wf(),
        0 <= metric < provider.updated(sysfs, pods).state.series.len(),
        provider.updated(sysfs, pods).state.series[metric].contains_key(hash),
    ensures
        0 <= i < device_ports(sysfs).len(),
        provider.updated(sysfs, pods).state.series[metric][hash].0
            == provider.labels_of(device_ports(sysfs)[i].0, device_ports(sysfs)[i].1, pods),
{
    law_scrape_exports_no_stale_series(
        provider.state,
        provider.readings(sysfs, pods),
        metric,
        hash,
    )
}

/// A port that stands alone is exported, for every metric, with its labels, and as value the change
/// of the counter since the last reading, or the whole counter where it has started again.
pub proof fn law_update_exports_port(
    provider: ProviderView,
    sysfs: SysfsSnapshot,
    pods: PodsView,
    metric: int,
    i: int,
)
    requires
        provider.wf(),
        stands_alone(provider.state, provider.readings(sysfs, pods), i),
        0 <= metric < provider.metrics(),
        0 <= i < device_ports(sysfs).len(),
    ensures
        ({
            let pair = device_ports(sysfs)[i];
            let labels = provider.labels_of(pair.0, pair.1, pods);
            let series = provider.updated(sysfs, pods).state.series[metric];
            &&& series.contains_key(label_hash(labels))
            &&& series[label_hash(labels)] == (
                labels,
                gauge_value(
                    counter_delta(
                        provider.counters_of(sysfs, pair.0, pair.1)[metric],
                        previous_counters(provider.state, port_key(pair.0, pair.1))[metric],
                    ),
                ),
            )
        }),
{
    law_scrape_exports_port(provider.state, provider.readings(sysfs, pods), metric, i);
}

/// Where every port stands alone, a scrape exports for every metric one series for each port that
/// it found, as [`law_update_exports_port`] describes it, and no others.
pub proof fn law_update_exports_one_series_per_port(
    provider: ProviderView,
    sysfs: SysfsSnapshot,
    pods: PodsView,
    metric: int,
    hash: u64,
)
    requires
        provider.wf(),
        forall|i: int|
            0 <= i < device_ports(sysfs).len() ==> #[trigger] stands_alone(
                provider.state,
                provider.readings(sysfs, pods),
                i,
            ),
        0 <= metric < provider.metrics(),
    ensures
        provider.updated(sysfs, pods).state.series[metric].contains_key(hash) <==> exists|i: int|
            0 <= i < device_ports(sysfs).len() && hash == label_hash(
                provider.labels_of(
                    (#[trigger] device_ports(sysfs)[i]).0,
                    device_ports(sysfs)[i].1,
                    pods,
                ),
            ),
        forall|i: int, j: int|
            0 <= i < j < device_ports(sysfs).len() ==> label_hash(
                provider.labels_of(
                    (#[trigger] device_ports(sysfs)[i]).0,
                    device_ports(sysfs)[i].1,
                    pods,
                ),
            ) != label_hash(
                provider.labels_of(
                    (#[trigger] device_ports(sysfs)[j]).0,
                    device_ports(sysfs)[j].1,
                    pods,
                ),
            ),
{
    let pairs = device_ports(sysfs);
    let readings = provider.readings(sysfs, pods);
    law_scrape_exports_one_series_per_port(provider.state, readings, metric);
    assert forall|i: int| 0 <= i < pairs.len() implies (#[trigger] readings[i]).labels
        == provider.labels_of(pairs[i].0, pairs[i].1, pods) by {}
    if scrape(provider.state, readings).series[metric].contains_key(hash) {
        let i = choose|i: int|
            0 <= i < readings.len() && hash == label_hash((#[trigger] readings[i]).labels);
        assert(hash == label_hash(provider.labels_of(pairs[i].0, pairs[i].1, pods)));
    }
    if exists|i: int|
        0 <= i < pairs.len() && hash == label_hash(
            provider.labels_of((#[trigger] pairs[i]).0, pairs[i].1, pods),
        ) {
        let i = choose|i: int|
            0 <= i < pairs.len() && hash == label_hash(
                provider.labels_of((#[trigger] pairs[i]).0, pairs[i].1, pods),
            );
        assert(hash == label_hash(readings[i].labels));
    }
    assert forall|i: int, j: int| 0 <= i < j < pairs.len() implies label_hash(
        provider.labels_of((#[trigger] pairs[i]).0, pairs[i].1, pods),
    ) != label_hash(provider.labels_of((#[trigger] pairs[j]).0, pairs[j].1, pods)) by {
        assert(stands_alone(provider.state, readings, i));
        assert(label_hash(readings[j].labels) != label_hash(readings[i].labels));
    }
}

/// `state` in place of the state of the provider.
spec fn with_state(provider: ProviderView, state: ScrapeState) -> ProviderView {
    ProviderView { state, ..provider }
}

proof fn lemma_record_all_keeps_wf(
    provider: ProviderView,
    state: ScrapeState,
    readings: Seq<Reading>,
)
    requires
        with_state(provider, state).wf(),
        forall|i: int|
            0 <= i < readings.len() ==> (#[trigger] readings[i]).counters.len()
                == provider.metrics() && readings[i].labels.len() == label_names(
                provider.platform,
            ).len(),
    ensures
        with_state(provider, record_all(state, readings)).wf(),
    decreases readings.len(),
{
    if readings.len() > 0 {
        let rest = readings.drop_last();
        let before = record_all(state, rest);
        let after = record(before, readings.last());
        lemma_record_all_keeps_wf(provider, state, rest);
        law_record_exports_only_tracked(before, readings.last());
        assert(readings[readings.len() - 1] == readings.last());
        assert forall|key: Seq<char>| #[trigger]
            after.values.contains_key(key) implies after.values[key].len()
            == provider.metrics() by {
            assert(key != readings.last().key ==> before.values.contains_key(key));
        }
        assert forall|key: Seq<char>| #[trigger]
            after.labels.contains_key(key) implies after.labels[key].len()
            == label_names(provider.platform).len() by {
            assert(key != readings.last().key ==> before.labels.contains_key(key));
        }
    }
}

/// A scrape keeps a provider well formed, whatever it finds.
pub proof fn law_update_keeps_wf(provider: ProviderView, sysfs: SysfsSnapshot, pods: PodsView)
    requires
        provider.wf(),
    ensures
        provider.updated(sysfs, pods).wf(),
{
    let readings = provider.readings(sysfs, pods);
    let active = reading_keys(readings).to_set();
    let kept = discard_stale(provider.state, active);
    law_discard_exports_only_tracked(provider.state, active);
    assert forall|key: Seq<char>| #[trigger]
        kept.values.contains_key(key) implies kept.values[key].len()
        == provider.metrics() by {
        assert(provider.state.values.contains_key(key));
    }
    assert forall|key: Seq<char>| #[trigger]
        kept.labels.contains_key(key) implies kept.labels[key].len()
        == label_names(provider.platform).len() by {
        assert(provider.state.labels.contains_key(key));
    }
    assert(with_state(provider, kept).wf());
    lemma_record_all_keeps_wf(provider, kept, readings);
}

/// The counter of metric `metric` of a port as `sysfs` has it, or zero where `sysfs` has no such
/// port.
pub open spec fn counter_or_zero(
    provider: ProviderView,
    sysfs: SysfsSnapshot,
    pair: (Seq<char>, Seq<char>),
    metric: int,
) -> u64 {
    if device_ports(sysfs).contains(pair) {
        provider.counters_of(sysfs, pair.0, pair.1)[metric]
    } else {
        0
    }
}

/// What one scrape keeps of a port is what the next compares with.
proof fn lemma_kept_counters(
    provider: ProviderView,
    earlier: SysfsSnapshot,
    pods: PodsView,
    pair: (Seq<char>, Seq<char>),
    metric: int,
)
    requires
        provider.wf(),
        names_are_file_names(earlier),
        !pair.0.contains('/'),
        0 <= metric < provider.metrics(),
    ensures
        previous_counters(
            provider.updated(earlier, pods).state,
            port_key(pair.0, pair.1),
        )[metric] == counter_or_zero(provider, earlier, pair, metric),
{
    let pairs = device_ports(earlier);
    let readings = provider.readings(earlier, pods);
    let keys = reading_keys(readings);
    let key = port_key(pair.0, pair.1);
    law_update_keeps_wf(provider, earlier, pods);
    law_scrape_keeps_exactly_active_ports(provider.state, readings);
    if pairs.contains(pair) {
        let i = choose|i: int| 0 <= i < pairs.len() && pairs[i] == pair;
        assert(keys[i] == key);
        let j = lemma_last_exists(readings, readings.len() as int, i);
        law_scrape_keeps_last_reading(provider.state, readings, j);
        assert(keys.to_set().contains(key));
        law_port_keys_are_unique(pairs[j].0, pairs[j].1, pair.0, pair.1);
    } else if keys.to_set().contains(key) {
        let i = choose|i: int| 0 <= i < keys.len() && keys[i] == key;
        law_port_keys_are_unique(pairs[i].0, pairs[i].1, pair.0, pair.1);
        assert(pairs[i] == pair);
    }
}

/// A scrape exports for a port that stands alone the change of its counters since the scrape
/// before: since zero where that scrape did not find the port, and where a counter has started
/// again.
pub proof fn law_update_exports_change_since_last_update(
    provider: ProviderView,
    earlier: SysfsSnapshot,
    earlier_pods: PodsView,
    sysfs: SysfsSnapshot,
    pods: PodsView,
    metric: int,
    i: int,
)
    requires
        provider.wf(),
        names_are_file_names(earlier),
        names_are_file_names(sysfs),
        stands_alone(
            provider.updated(earlier, earlier_pods).state,
            provider.readings(sysfs, pods),
            i,
        ),
        0 <= metric < provider.metrics(),
        0 <= i < device_ports(sysfs).len(),
    ensures
        ({
            let pair = device_ports(sysfs)[i];
            let labels = provider.labels_of(pair.0, pair.1, pods);
            let series = provider.updated(earlier, earlier_pods).updated(
                sysfs,
                pods,
            ).state.series[metric];
            &&& series.contains_key(label_hash(labels))
            &&& series[label_hash(labels)] == (
                labels,
                gauge_value(
                    counter_delta(
                        provider.counters_of(sysfs, pair.0, pair.1)[metric],
                        counter_or_zero(provider, earlier, pair, metric),
                    ),
                ),
            )
        }),
{
    let middle = provider.updated(earlier, earlier_pods);
    let pair = device_ports(sysfs)[i];
    law_update_keeps_wf(provider, earlier, earlier_pods);
    lemma_readings_ignore_state(provider, middle.state, sysfs, pods);
    law_update_exports_port(middle, sysfs, pods, metric, i);
    lemma_kept_counters(provider, earlier, earlier_pods, pair, metric);
    assert(middle.counters_of(sysfs, pair.0, pair.1) =~= provider.counters_of(
        sysfs,
        pair.0,
        pair.1,
    ));
}

/// What a new provider keeps of a port is what its first scrape compares with.
proof fn lemma_seeded_counters(
    provider: ProviderView,
    start: SysfsSnapshot,
    pair: (Seq<char>, Seq<char>),
    metric: int,
)
    requires
        provider.state == seeded(provider.readings(start, None), provider.metrics()),
        names_are_file_names(start),
        !pair.0.contains('/'),
        0 <= metric < provider.metrics(),
    ensures
        previous_counters(provider.state, port_key(pair.0, pair.1))[metric] == counter_or_zero(
            provider,
            start,
            pair,
            metric,
        ),
{
    let pairs = device_ports(start);
    let readings = provider.readings(start, None);
    let keys = reading_keys(readings);
    let key = port_key(pair.0, pair.1);
    lemma_same_counters(provider, start, None, None);
    if pairs.contains(pair) {
        let i = choose|i: int| 0 <= i < pairs.len() && pairs[i] == pair;
        assert(readings[i].key == key);
        lemma_filed(Map::empty(), readings, i);
    } else if provider.state.values.contains_key(key) {
        lemma_filed_keys(readings, key);
        let i = choose|i: int| 0 <= i < keys.len() && keys[i] == key;
        law_port_keys_are_unique(pairs[i].0, pairs[i].1, pair.0, pair.1);
        assert(pairs[i] == pair);
    }
}

/// The first scrape of a new provider exports for a port that stands alone the change of its
/// counters since the provider was made: since zero where the port was not there, and where a
/// counter has started again.
pub proof fn law_first_update_exports_change_since_start(
    provider: ProviderView,
    start: SysfsSnapshot,
    sysfs: SysfsSnapshot,
    pods: PodsView,
    metric: int,
    i: int,
)
    requires
        provider.wf(),
        provider.state == seeded(provider.readings(start, None), provider.metrics()),
        names_are_file_names(start),
        names_are_file_names(sysfs),
        stands_alone(provider.state, provider.readings(sysfs, pods), i),
        0 <= metric < provider.metrics(),
        0 <= i < device_ports(sysfs).len(),
    ensures
        ({
            let pair = device_ports(sysfs)[i];
            let labels = provider.labels_of(pair.0, pair.1, pods);
            let series = provider.updated(sysfs, pods).state.series[metric];
            &&& series.contains_key(label_hash(labels))
            &&& series[label_hash(labels)] == (
                labels,
                gauge_value(
                    counter_delta(
                        provider.counters_of(sysfs, pair.0, pair.1)[metric],
                        counter_or_zero(provider, start, pair, metric),
                    ),
                ),
            )
        }),
{
    law_update_exports_port(provider, sysfs, pods, metric, i);
    lemma_seeded_counters(provider, start, device_ports(sysfs)[i], metric);
}

/// A second scrape of the same sysfs and the same pods leaves the counters and labels that are kept
/// as they were.
pub proof fn law_repeated_update_keeps_tables(
    provider: ProviderView,
    sysfs: SysfsSnapshot,
    pods: PodsView,
)
    ensures
        ({
            let first = provider.updated(sysfs, pods);
            let second = first.updated(sysfs, pods);
            &&& second.state.values == first.state.values
            &&& second.state.labels == first.state.labels
            &&& second.families == first.families
        }),
{
    let first = provider.updated(sysfs, pods);
    lemma_readings_ignore_state(provider, first.state, sysfs, pods);
    law_repeated_scrape_keeps_tables(provider.state, provider.readings(sysfs, pods));
}

/// A second scrape of the same sysfs and the same pods leaves every metric with the series that it
/// had, each with the value zero, where the first lost no series.
pub proof fn law_repeated_update_keeps_series(
    provider: ProviderView,
    sysfs: SysfsSnapshot,
    pods: PodsView,
    metric: int,
)
    requires
        provider.wf(),
        names_are_file_names(sysfs),
        no_series_lost(provider.state, provider.readings(sysfs, pods)),
        0 <= metric < provider.metrics(),
    ensures
        ({
            let first = provider.updated(sysfs, pods).state.series[metric];
            let second = provider.updated(sysfs, pods).updated(sysfs, pods).state.series[metric];
            &&& second.dom() == first.dom()
            &&& forall|hash: u64| #[trigger]
                second.contains_key(hash) ==> second[hash] == (first[hash].0, 0i64)
        }),
{
    let pairs = device_ports(sysfs);
    let readings = provider.readings(sysfs, pods);
    let middle = provider.updated(sysfs, pods);
    lemma_readings_ignore_state(provider, middle.state, sysfs, pods);
    assert(labels_agree(readings)) by {
        assert forall|i: int, j: int|
            0 <= i < readings.len() && 0 <= j < readings.len() && (#[trigger] readings[i]).key == (
            #[trigger] readings[j]).key implies readings[i].labels == readings[j].labels by {
            law_port_keys_are_unique(pairs[i].0, pairs[i].1, pairs[j].0, pairs[j].1);
        }
    }
    law_repeated_scrape_keeps_series(provider.state, readings, metric);
    let second = middle.updated(sysfs, pods).state.series[metric];
    assert forall|hash: u64| #[trigger] second.contains_key(hash) implies second[hash] == (
        middle.state.series[metric][hash].0,
        0i64,
    ) by {
        assert(middle.state.series[metric].dom().contains(hash));
        law_idle_update_exports_zero(provider, sysfs, pods, pods, metric, hash);
    }
}

/// On EC2 without Kubernetes, the labels of a port do not depend on pods.
pub proof fn law_plain_labels_never_change(
    provider: ProviderView,
    device: Seq<char>,
    port: Seq<char>,
    pods: PodsView,
    later_pods: PodsView,
)
    requires
        provider.platform == ComputePlatform::Ec2Plain,
    ensures
        provider.labels_of(device, port, pods) == provider.labels_of(device, port, later_pods),
{
}

/// A port has a label value for each label name.
pub proof fn law_labels_match_label_names(
    provider: ProviderView,
    device: Seq<char>,
    port: Seq<char>,
    pods: PodsView,
)
    ensures
        provider.labels_of(device, port, pods).len() == label_names(provider.platform).len(),
{
}

/// Which names a registry knows once it was asked to register the families.
proof fn lemma_registered_names(state: RegistryState, families: Seq<Family>, name: Seq<char>)
    requires
        after_registrations(state, families).dimensions.contains_key(name),
    ensures
        state.dimensions.contains_key(name) || exists|i: int|
            0 <= i < families.len() && (#[trigger] families[i]).descriptor.name == name,
    decreases families.len(),
{
    if families.len() > 0 {
        let rest = families.drop_last();
        if families.last().descriptor.name == name {
            assert(families[families.len() - 1].descriptor.name == name);
        } else {
            lemma_registered_names(state, rest, name);
            if !state.dimensions.contains_key(name) {
                let i = choose|i: int|
                    0 <= i < rest.len() && (#[trigger] rest[i]).descriptor.name == name;
                assert(families[i].descriptor.name == name);
            }
        }
    }
}

/// Which identifiers a registry knows once it was asked to register the families.
proof fn lemma_registered_ids(state: RegistryState, families: Seq<Family>, id: u64)
    requires
        after_registrations(state, families).ids.contains(id) || after_registrations(
            state,
            families,
        ).stores.contains_key(id),
    ensures
        state.ids.contains(id) || state.stores.contains_key(id) || exists|i: int|
            0 <= i < families.len() && (#[trigger] families[i]).id() == id,
    decreases families.len(),
{
    if families.len() > 0 {
        let rest = families.drop_last();
        if families.last().id() == id {
            assert(families[families.len() - 1].id() == id);
        } else {
            lemma_registered_ids(state, rest, id);
            if !state.ids.contains(id) && !state.stores.contains_key(id) {
                let i = choose|i: int| 0 <= i < rest.len() && (#[trigger] rest[i]).id() == id;
                assert(families[i].id() == id);
            }
        }
    }
}

/// A registry that has accepted the families has registered each of them.
proof fn lemma_accepted(state: RegistryState, families: Seq<Family>, i: int)
    requires
        forall|j: int| 0 <= j < families.len() ==> accepts_next(state, families, j),
        0 <= i < families.len(),
    ensures
        after_registrations(state, families).ids.contains(families[i].id()),
        after_registrations(state, families).stores.contains_key(families[i].id()),
        after_registrations(state, families).stores[families[i].id()] == families[i].store,
    decreases families.len(),
{
    let last = families.len() - 1;
    let rest = families.drop_last();
    assert(families.take(last) =~= rest);
    assert(accepts_next(state, families, last));
    if i < last {
        assert forall|j: int| 0 <= j < rest.len() implies accepts_next(state, rest, j) by {
            assert(rest.take(j) =~= families.take(j));
            assert(accepts_next(state, families, j));
        }
        lemma_accepted(state, rest, i);
        assert(rest[i] == families[i]);
    }
}

/// A registry that has accepted the metrics of a provider shows what the provider writes.
pub proof fn law_registered_families_are_exposed(provider: ProviderView, state: RegistryState)
    requires
        forall|i: int|
            0 <= i < provider.families.len() ==> accepts_next(state, provider.families, i),
    ensures
        provider.exposed_by(after_registrations(state, provider.families)),
{
    assert forall|i: int| 0 <= i < provider.families.len() implies {
        let after = after_registrations(state, provider.families);
        after.stores.contains_key((#[trigger] provider.families[i]).id())
            && after.stores[provider.families[i].id()] == provider.families[i].store
    } by {
        lemma_accepted(state, provider.families, i);
    }
}

/// What a collector reads once the registry was asked to register the families: what it read
/// before, unless one of the families was registered under its identifier.
proof fn lemma_registered_stores(state: RegistryState, families: Seq<Family>, id: u64)
    ensures
        ({
            let after = after_registrations(state, families);
            &&& state.stores.contains_key(id) ==> after.stores.contains_key(id) && after.stores[id]
                == state.stores[id]
            &&& after.stores.contains_key(id) ==> state.stores.contains_key(id) || exists|i: int|
                0 <= i < families.len() && (#[trigger] families[i]).id() == id
        }),
    decreases families.len(),
{
    if families.len() > 0 {
        let rest = families.drop_last();
        lemma_registered_stores(state, rest, id);
        if families.last().id() == id {
            assert(families[families.len() - 1].id() == id);
        } else if exists|i: int| 0 <= i < rest.len() && (#[trigger] rest[i]).id() == id {
            let i = choose|i: int| 0 <= i < rest.len() && (#[trigger] rest[i]).id() == id;
            assert(families[i].id() == id);
        }
    }
}

/// A registry that has accepted the metrics of a provider has one more collector for each of them
/// and no others, and what the other collectors read is as it was.
pub proof fn law_registration_adds_exactly_the_metrics(
    provider: ProviderView,
    state: RegistryState,
    id: u64,
)
    requires
        provider.wf(),
        forall|i: int|
            0 <= i < provider.families.len() ==> accepts_next(state, provider.families, i),
    ensures
        ({
            let after = after_registrations(state, provider.families);
            &&& after.stores.contains_key(id) <==> state.stores.contains_key(id) || exists|i: int|
                0 <= i < provider.families.len() && (#[trigger] provider.families[i]).id() == id
            &&& state.stores.contains_key(id) ==> after.stores[id] == state.stores[id]
        }),
        forall|i: int, j: int|
            0 <= i < j < provider.families.len() ==> (#[trigger] provider.families[i]).id() != (
            #[trigger] provider.families[j]).id(),
{
    let families = provider.families;
    lemma_registered_stores(state, families, id);
    if exists|i: int| 0 <= i < families.len() && (#[trigger] families[i]).id() == id {
        let i = choose|i: int| 0 <= i < families.len() && (#[trigger] families[i]).id() == id;
        lemma_accepted(state, families, i);
    }
    assert forall|i: int, j: int| 0 <= i < j < families.len() implies (#[trigger] families[i]).id()
        != (#[trigger] families[j]).id() by {
        law_metric_ids_are_distinct(i, j);
    }
}

/// The provider after some scrapes, one after the other.
pub open spec fn updated_by_all(
    provider: ProviderView,
    scrapes: Seq<(SysfsSnapshot, PodsView)>,
) -> ProviderView
    decreases scrapes.len(),
{
    if scrapes.len() == 0 {
        provider
    } else {
        updated_by_all(provider, scrapes.drop_last()).updated(scrapes.last().0, scrapes.last().1)
    }
}

/// A registry that shows the series of a provider shows them after any number of scrapes.
pub proof fn law_updates_stay_exposed(
    provider: ProviderView,
    scrapes: Seq<(SysfsSnapshot, PodsView)>,
    registry: RegistryState,
)
    requires
        provider.exposed_by(registry),
    ensures
        updated_by_all(provider, scrapes).families == provider.families,
        updated_by_all(provider, scrapes).exposed_by(registry),
    decreases scrapes.len(),
{
    if scrapes.len() > 0 {
        law_updates_stay_exposed(provider, scrapes.drop_last(), registry);
    }
}

/// A scrape that finds a port exports a series of every metric.
pub proof fn law_update_exports_every_metric(
    provider: ProviderView,
    sysfs: SysfsSnapshot,
    pods: PodsView,
    metric: int,
)
    requires
        provider.wf(),
        device_ports(sysfs).len() > 0,
        0 <= metric < provider.metrics(),
    ensures
        !provider.updated(sysfs, pods).state.series[metric].is_empty(),
{
    let readings = provider.readings(sysfs, pods);
    let kept = discard_stale(provider.state, reading_keys(readings).to_set());
    let last = readings.last();
    law_update_keeps_wf(provider, sysfs, pods);
    assert(record_all(kept, readings) == record(record_all(kept, readings.drop_last()), last));
    assert(provider.updated(sysfs, pods).state.series[metric].contains_key(label_hash(last.labels)));
}

/// A registry that knows none of the metrics, neither by name nor by identifier, accepts them all.
pub proof fn law_fresh_registry_accepts_all_families(
    provider: ProviderView,
    state: RegistryState,
    i: int,
)
    requires
        provider.wf(),
        forall|j: int|
            0 <= j < provider.families.len() ==> {
                &&& !state.ids.contains((#[trigger] provider.families[j]).id())
                &&& !state.stores.contains_key(provider.families[j].id())
                &&& !state.dimensions.contains_key(provider.families[j].descriptor.name)
            },
        0 <= i < provider.families.len(),
    ensures
        accepts_next(state, provider.families, i),
{
    let families = provider.families;
    let earlier = families.take(i);
    let before = after_registrations(state, earlier);
    let id = families[i].id();
    if before.ids.contains(id) || before.stores.contains_key(id) {
        lemma_registered_ids(state, earlier, id);
        let j = choose|j: int| 0 <= j < earlier.len() && (#[trigger] earlier[j]).id() == id;
        assert(families[j] == earlier[j]);
        law_metric_ids_are_distinct(j, i);
    }
    if before.dimensions.contains_key(families[i].descriptor.name) {
        lemma_registered_names(state, earlier, families[i].descriptor.name);
        let j = choose|j: int|
            0 <= j < earlier.len() && (#[trigger] earlier[j]).descriptor.name
                == families[i].descriptor.name;
        assert(families[j] == earlier[j]);
        law_metric_names_are_distinct(j, i);
    }
}

/// A registry that has accepted the metrics of a provider refuses those of any provider, also on
/// another platform, from the first on, as long as none is taken out.
pub proof fn law_registry_refuses_second_provider(
    provider: ProviderView,
    state: RegistryState,
    later: RegistryState,
    other: ProviderView,
)
    requires
        provider.wf(),
        other.wf(),
        forall|i: int|
            0 <= i < provider.families.len() ==> accepts_next(state, provider.families, i),
        after_registrations(state, provider.families).ids.subset_of(later.ids),
    ensures
        !accepts_next(later, other.families, 0),
{
    lemma_accepted(state, provider.families, 0);
    assert(other.families.take(0) =~= seq![]);
    assert(other.families[0].id() == provider.families[0].id());
}

} // verus!
