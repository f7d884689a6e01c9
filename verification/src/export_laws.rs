//! What the exported series say of the counter files that were read.
use vstd::prelude::*;

use crate::counter::{counter_delta, gauge_value};
use crate::counter_laws::{
    holds_number, law_change_of_counter, law_gauge_value_is_the_change,
};
use crate::gauges::Series;
use crate::hash::label_hash;
use crate::laws::{
    law_port_keys_are_unique, law_scrape_keeps_last_reading, lemma_last_exists, stands_alone,
};
use crate::metrics::{law_counter_file_is_named_by_the_metric, SRD_METRICS, STANDARD_METRICS};
use crate::platform::{label_names, ComputePlatform};
use crate::pods::PodsView;
use crate::provider_laws::{
    counter_or_zero, law_first_update_exports_change_since_start,
    law_update_exports_change_since_last_update, names_are_file_names,
};
use crate::scrape::{
    exported_value, port_key, previous_counters, seeded, ProviderView, Reading, ScrapeState,
};
use crate::sysfs::{counter_reading, device_ports, SysfsSnapshot};
use crate::sysfs_laws::{
    file_at, is_file, law_counter_reads_its_own_file, law_counter_without_file_is_not_read,
    path_called,
};

verus! {

/// File `at.2` of port entry `at.1` of device entry `at.0` is the counter file of the metric
/// `metric` for a port: it is called by the name of the metric without `efa_`.
pub open spec fn is_file_of_metric(
    sysfs: SysfsSnapshot,
    at: (int, int, int),
    pair: (Seq<char>, Seq<char>),
    metric: int,
) -> bool {
    exists|counter: Seq<char>|
        crate::metrics::metric(metric).0 == "efa_"@ + counter && #[trigger] is_file(
            sysfs,
            at.0,
            at.1,
            at.2,
            pair.0,
            pair.1,
            counter,
        )
}

/// That file holds the number `n`.
pub open spec fn file_holds(sysfs: SysfsSnapshot, at: (int, int, int), n: u64) -> bool {
    &&& file_at(sysfs, at.0, at.1, at.2)->0.content is Some
    &&& holds_number(file_at(sysfs, at.0, at.1, at.2)->0.content->0@, n as nat)
}

/// The counter of a metric is the number in the file that the name of the metric names, for each of
/// the metrics, and zero where that file holds no number.
pub proof fn law_metric_is_read_from_its_own_file(
    provider: ProviderView,
    sysfs: SysfsSnapshot,
    at: (int, int, int),
    pair: (Seq<char>, Seq<char>),
    metric: int,
    n: u64,
)
    requires
        0 <= metric < provider.metrics(),
        is_file_of_metric(sysfs, at, pair, metric),
    ensures
        provider.counters_of(sysfs, pair.0, pair.1).len() == provider.metrics(),
        file_holds(sysfs, at, n) ==> provider.counters_of(sysfs, pair.0, pair.1)[metric] == n,
        (forall|v: u64| !file_holds(sysfs, at, v)) ==> provider.counters_of(
            sysfs,
            pair.0,
            pair.1,
        )[metric] == 0,
{
    let counter = choose|counter: Seq<char>|
        crate::metrics::metric(metric).0 == "efa_"@ + counter && #[trigger] is_file(
            sysfs,
            at.0,
            at.1,
            at.2,
            pair.0,
            pair.1,
            counter,
        );
    law_counter_file_is_named_by_the_metric(metric, counter);
    let read = counter_reading(sysfs, pair.0, pair.1, counter);
    law_counter_reads_its_own_file(sysfs, at.0, at.1, at.2, pair.0, pair.1, counter, n);
    if read is Some {
        law_counter_reads_its_own_file(
            sysfs,
            at.0,
            at.1,
            at.2,
            pair.0,
            pair.1,
            counter,
            read->0,
        );
        assert(file_holds(sysfs, at, read->0));
    }
}

/// The counter of a metric whose file is not there is zero.
pub proof fn law_metric_without_file_is_zero(
    provider: ProviderView,
    sysfs: SysfsSnapshot,
    pair: (Seq<char>, Seq<char>),
    metric: int,
    counter: Seq<char>,
)
    requires
        0 <= metric < provider.metrics(),
        crate::metrics::metric(metric).0 == "efa_"@ + counter,
        forall|i: int, j: int, k: int| !path_called(sysfs, i, j, k, pair.0, pair.1, counter),
    ensures
        provider.counters_of(sysfs, pair.0, pair.1)[metric] == 0,
{
    law_counter_file_is_named_by_the_metric(metric, counter);
    law_counter_without_file_is_not_read(sysfs, pair.0, pair.1, counter);
}

/// What is read of a metric does not depend on any file but its own.
pub proof fn law_metric_ignores_other_files(
    provider: ProviderView,
    sysfs: SysfsSnapshot,
    at: (int, int, int),
    other: SysfsSnapshot,
    other_at: (int, int, int),
    pair: (Seq<char>, Seq<char>),
    metric: int,
)
    requires
        0 <= metric < provider.metrics(),
        is_file_of_metric(sysfs, at, pair, metric),
        is_file_of_metric(other, other_at, pair, metric),
        forall|v: u64| file_holds(sysfs, at, v) <==> file_holds(other, other_at, v),
    ensures
        provider.counters_of(sysfs, pair.0, pair.1)[metric] == provider.counters_of(
            other,
            pair.0,
            pair.1,
        )[metric],
{
    if exists|v: u64| file_holds(sysfs, at, v) {
        let v = choose|v: u64| file_holds(sysfs, at, v);
        law_metric_is_read_from_its_own_file(provider, sysfs, at, pair, metric, v);
        law_metric_is_read_from_its_own_file(provider, other, other_at, pair, metric, v);
    } else {
        law_metric_is_read_from_its_own_file(provider, sysfs, at, pair, metric, 0);
        law_metric_is_read_from_its_own_file(provider, other, other_at, pair, metric, 0);
    }
}

/// The value of a gauge for a counter that went from `previous` to `current`: what was counted in
/// between, all of `current` where the counter has started again, less 2^64 where that is more than
/// a gauge can hold.
pub open spec fn shows_change(value: i64, current: u64, previous: u64) -> bool {
    &&& previous <= current && current - previous <= 0x7fff_ffff_ffff_ffff ==> value as int
        == current - previous
    &&& previous <= current && current - previous > 0x7fff_ffff_ffff_ffff ==> value as int
        == current - previous - 0x1_0000_0000_0000_0000
    &&& current < previous && current <= 0x7fff_ffff_ffff_ffff ==> value as int == current as int
    &&& current < previous && current > 0x7fff_ffff_ffff_ffff ==> value as int == current
        - 0x1_0000_0000_0000_0000
}

proof fn lemma_shows_change(current: u64, previous: u64)
    ensures
        shows_change(gauge_value(counter_delta(current, previous)), current, previous),
{
    law_change_of_counter(current, previous);
    law_gauge_value_is_the_change(counter_delta(current, previous));
}

/// Every reading of a port, in whatever state it finds the exported series, is exported with the
/// change of its counters since the reading that is kept of the port, or since zero where none is
/// kept.
pub proof fn law_reading_is_exported_as_its_change(state: ScrapeState, reading: Reading, i: int)
    requires
        0 <= i < state.series.len(),
    ensures
        state.values.contains_key(reading.key) ==> shows_change(
            exported_value(state, reading, i),
            reading.counters[i],
            state.values[reading.key][i],
        ),
        !state.values.contains_key(reading.key) ==> shows_change(
            exported_value(state, reading, i),
            reading.counters[i],
            0,
        ),
{
    lemma_shows_change(reading.counters[i], previous_counters(state, reading.key)[i]);
}

/// A scrape reads every port that is found, in the order in which they are found, with its own
/// labels and its own counters.
pub proof fn law_every_port_is_read(
    provider: ProviderView,
    sysfs: SysfsSnapshot,
    pods: PodsView,
    i: int,
)
    requires
        0 <= i < device_ports(sysfs).len(),
    ensures
        ({
            let pair = device_ports(sysfs)[i];
            let readings = provider.readings(sysfs, pods);
            &&& readings.len() == device_ports(sysfs).len()
            &&& readings[i].key == pair.0 + "/"@ + pair.1
            &&& readings[i].labels == provider.labels_of(pair.0, pair.1, pods)
            &&& readings[i].counters == provider.counters_of(sysfs, pair.0, pair.1)
        }),
{
    law_key_is_device_slash_port(device_ports(sysfs)[i].0, device_ports(sysfs)[i].1);
}

/// A scrape exports for a port that stands alone, for every metric, what its counter file has
/// counted since the scrape before: the difference of the numbers in that file.
pub proof fn law_update_exports_what_was_counted(
    provider: ProviderView,
    earlier: SysfsSnapshot,
    earlier_pods: PodsView,
    earlier_at: (int, int, int),
    previous: u64,
    sysfs: SysfsSnapshot,
    pods: PodsView,
    at: (int, int, int),
    current: u64,
    metric: int,
    i: int,
)
    requires
        provider.wf(),
        names_are_file_names(earlier),
        names_are_file_names(sysfs),
        stands_alone(
            provider.updated(earlier, earlier_pods).state,
            provider.readings(sysfs, pods),
            i,
        ),
        0 <= metric < provider.metrics(),
        0 <= i < device_ports(sysfs).len(),
        is_file_of_metric(sysfs, at, device_ports(sysfs)[i], metric),
        file_holds(sysfs, at, current),
        // The scrape before did not find the port, or found this number in the same file.
        if device_ports(earlier).contains(device_ports(sysfs)[i]) {
            is_file_of_metric(earlier, earlier_at, device_ports(sysfs)[i], metric) && file_holds(
                earlier,
                earlier_at,
                previous,
            )
        } else {
            previous == 0
        },
    ensures
        ({
            let pair = device_ports(sysfs)[i];
            let labels = provider.labels_of(pair.0, pair.1, pods);
            let series = provider.updated(earlier, earlier_pods).updated(
                sysfs,
                pods,
            ).state.series[metric];
            &&& series.contains_key(label_hash(labels))
            &&& series[label_hash(labels)].0 == labels
            &&& shows_change(series[label_hash(labels)].1, current, previous)
        }),
{
    let pair = device_ports(sysfs)[i];
    law_update_exports_change_since_last_update(
        provider,
        earlier,
        earlier_pods,
        sysfs,
        pods,
        metric,
        i,
    );
    law_metric_is_read_from_its_own_file(provider, sysfs, at, pair, metric, current);
    if device_ports(earlier).contains(pair) {
        law_metric_is_read_from_its_own_file(provider, earlier, earlier_at, pair, metric, previous);
    }
    assert(counter_or_zero(provider, earlier, pair, metric) == previous);
    lemma_shows_change(current, previous);
}

/// The first scrape of a new provider exports for a port that stands alone, for every metric, what
/// its counter file has counted since the provider was made.
pub proof fn law_first_update_exports_what_was_counted(
    provider: ProviderView,
    start: SysfsSnapshot,
    start_at: (int, int, int),
    previous: u64,
    sysfs: SysfsSnapshot,
    pods: PodsView,
    at: (int, int, int),
    current: u64,
    metric: int,
    i: int,
)
    requires
        provider.wf(),
        provider.state == seeded(provider.readings(start, None), provider.metrics()),
        names_are_file_names(start),
        names_are_file_names(sysfs),
        stands_alone(provider.state, provider.readings(sysfs, pods), i),
        0 <= metric < provider.metrics(),
        0 <= i < device_ports(sysfs).len(),
        is_file_of_metric(sysfs, at, device_ports(sysfs)[i], metric),
        file_holds(sysfs, at, current),
        // The port was not there at the start, or this number was in the same file.
        if device_ports(start).contains(device_ports(sysfs)[i]) {
            is_file_of_metric(start, start_at, device_ports(sysfs)[i], metric) && file_holds(
                start,
                start_at,
                previous,
            )
        } else {
            previous == 0
        },
    ensures
        ({
            let pair = device_ports(sysfs)[i];
            let labels = provider.labels_of(pair.0, pair.1, pods);
            let series = provider.updated(sysfs, pods).state.series[metric];
            &&& series.contains_key(label_hash(labels))
            &&& series[label_hash(labels)].0 == labels
            &&& shows_change(series[label_hash(labels)].1, current, previous)
        }),
{
    let pair = device_ports(sysfs)[i];
    law_first_update_exports_change_since_start(provider, start, sysfs, pods, metric, i);
    law_metric_is_read_from_its_own_file(provider, sysfs, at, pair, metric, current);
    if device_ports(start).contains(pair) {
        law_metric_is_read_from_its_own_file(provider, start, start_at, pair, metric, previous);
    }
    assert(counter_or_zero(provider, start, pair, metric) == previous);
    lemma_shows_change(current, previous);
}

/// After a scrape, the provider keeps of every port that it found the counters that it read there,
/// and the labels that it exported the port with.
pub proof fn law_update_keeps_what_was_read(
    provider: ProviderView,
    sysfs: SysfsSnapshot,
    pods: PodsView,
    i: int,
)
    requires
        names_are_file_names(sysfs),
        0 <= i < device_ports(sysfs).len(),
    ensures
        ({
            let pair = device_ports(sysfs)[i];
            let key = pair.0 + "/"@ + pair.1;
            let after = provider.updated(sysfs, pods).state;
            &&& after.values[key] == provider.counters_of(sysfs, pair.0, pair.1)
            &&& after.labels[key] == provider.labels_of(pair.0, pair.1, pods)
        }),
{
    let pairs = device_ports(sysfs);
    let readings = provider.readings(sysfs, pods);
    let j = lemma_last_exists(readings, readings.len() as int, i);
    law_scrape_keeps_last_reading(provider.state, readings, j);
    law_port_keys_are_unique(pairs[j].0, pairs[j].1, pairs[i].0, pairs[i].1);
    law_key_is_device_slash_port(pairs[i].0, pairs[i].1);
}

/// A port is filed under its device, a slash and its name.
pub proof fn law_key_is_device_slash_port(device: Seq<char>, port: Seq<char>)
    ensures
        port_key(device, port) == device + "/"@ + port,
{
    reveal_strlit("/");
    assert("/"@ =~= seq!['/']);
}

/// A scrape changes what is kept and exported, and nothing else of a provider: not its platform,
/// its instance, its node, the metrics that it exports or the gauge families that it writes.
pub proof fn law_update_keeps_configuration(
    provider: ProviderView,
    sysfs: SysfsSnapshot,
    pods: PodsView,
)
    ensures
        provider.updated(sysfs, pods).platform == provider.platform,
        provider.updated(sysfs, pods).instance_id == provider.instance_id,
        provider.updated(sysfs, pods).node_name == provider.node_name,
        provider.updated(sysfs, pods).srd_available == provider.srd_available,
        provider.updated(sysfs, pods).families == provider.families,
{
}

/// A new provider exports nothing before its first scrape, and takes no port for exported.
pub proof fn law_new_provider_exports_nothing(
    readings: Seq<Reading>,
    metrics: nat,
    metric: int,
    key: Seq<char>,
)
    requires
        0 <= metric < metrics,
    ensures
        seeded(readings, metrics).series.len() == metrics,
        seeded(readings, metrics).series[metric] == Series::empty(),
        !seeded(readings, metrics).labels.contains_key(key),
{
}

/// The platform runs Kubernetes.
pub open spec fn on_kubernetes(platform: ComputePlatform) -> bool {
    platform == ComputePlatform::Ec2K8sEks || platform == ComputePlatform::Ec2K8sVanilla
}

/// Every series is labelled with instance, device and port, and on Kubernetes, whoever manages it,
/// also with node, pod and namespace, in this order.
pub proof fn law_platform_decides_the_label_names(platform: ComputePlatform)
    ensures
        on_kubernetes(platform) ==> label_names(platform) == seq![
            "instance_id"@,
            "device"@,
            "port"@,
            "node"@,
            "pod"@,
            "namespace"@,
        ],
        !on_kubernetes(platform) ==> label_names(platform) == seq![
            "instance_id"@,
            "device"@,
            "port"@,
        ],
{
}

/// The value of a label is what the name of the label says: the instance ID, the device, the port,
/// the name of the node, or name and namespace of the pod that has the device, each `unknown` where
/// the record of pods knows none.
pub proof fn law_label_value_is_what_the_name_says(
    provider: ProviderView,
    device: Seq<char>,
    port: Seq<char>,
    pods: PodsView,
    k: int,
)
    requires
        0 <= k < label_names(provider.platform).len(),
    ensures
        ({
            let name = label_names(provider.platform)[k];
            let labels = provider.labels_of(device, port, pods);
            let known = pods is Some && pods->0.contains_key(device);
            &&& labels.len() == label_names(provider.platform).len()
            &&& name == "instance_id"@ ==> labels[k] == provider.instance_id
            &&& name == "device"@ ==> labels[k] == device
            &&& name == "port"@ ==> labels[k] == port
            &&& name == "node"@ ==> labels[k] == provider.node_name
            &&& name == "pod"@ && known ==> labels[k] == pods->0[device].0
            &&& name == "pod"@ && !known ==> labels[k] == "unknown"@
            &&& name == "namespace"@ && known ==> labels[k] == pods->0[device].1
            &&& name == "namespace"@ && !known ==> labels[k] == "unknown"@
        }),
{
    reveal_strlit("instance_id");
    reveal_strlit("device");
    reveal_strlit("port");
    reveal_strlit("node");
    reveal_strlit("pod");
    reveal_strlit("namespace");
    assert("instance_id"@.len() == 11 && "device"@.len() == 6 && "port"@.len() == 4);
    assert("node"@.len() == 4 && "pod"@.len() == 3 && "namespace"@.len() == 9);
    assert("port"@[0] == 'p' && "node"@[0] == 'n');
}

/// The gauge family of a metric is described by the name and the help text in the table of metrics
/// and by the label names of the platform, SRD metrics being among them where they are available.
pub proof fn law_families_are_described_by_the_tables(provider: ProviderView, i: int)
    requires
        provider.wf(),
    ensures
        provider.families.len() == if provider.srd_available {
            22nat
        } else {
            17nat
        },
        0 <= i < 17 ==> {
            &&& provider.families[i].descriptor.name == STANDARD_METRICS@[i].0@
            &&& provider.families[i].descriptor.help == STANDARD_METRICS@[i].1@
            &&& provider.families[i].descriptor.label_names == label_names(provider.platform)
        },
        provider.srd_available && 0 <= i < 5 ==> {
            &&& provider.families[17 + i].descriptor.name == SRD_METRICS@[i].0@
            &&& provider.families[17 + i].descriptor.help == SRD_METRICS@[i].1@
            &&& provider.families[17 + i].descriptor.label_names == label_names(provider.platform)
        },
{
}

} // verus!
