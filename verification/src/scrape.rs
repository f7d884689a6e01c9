//! What scrapes of the counters do to the exported series: the mathematical model.
use vstd::prelude::*;

use crate::counter::{counter_delta, gauge_value};
use crate::gauges::{efa_descriptor, with_value, Family, RegistryState, Series};
use crate::hash::label_hash;
use crate::metrics::{counter_name, metric, metric_count};
use crate::platform::{label_names, ComputePlatform};
use crate::pods::{pod_of, PodsView};
use crate::sysfs::{counter_reading, device_ports, SysfsSnapshot};

verus! {

/// What is kept from scrape to scrape, and what is exported.
#[verifier::ext_equal]
pub struct ScrapeState {
    /// The counters of each port at its last reading, by cache key.
    pub values: Map<Seq<char>, Seq<u64>>,
    /// The label values that each port was last exported with, by cache key.
    pub labels: Map<Seq<char>, Seq<Seq<char>>>,
    /// The exported series of each metric.
    pub series: Seq<Series>,
}

/// One port, as a scrape reads it.
#[verifier::ext_equal]
pub struct Reading {
    pub key: Seq<char>,
    pub labels: Seq<Seq<char>>,
    pub counters: Seq<u64>,
}

/// The key that a port is filed under.
pub open spec fn port_key(device: Seq<char>, port: Seq<char>) -> Seq<char> {
    device + seq!['/'] + port
}

/// The counters that a port is compared with: zeros at its first reading.
pub open spec fn previous_counters(state: ScrapeState, key: Seq<char>) -> Seq<u64> {
    if state.values.contains_key(key) {
        state.values[key]
    } else {
        Seq::new(state.series.len(), |i: int| 0u64)
    }
}

/// The value that metric `i` is exported with for a reading.
pub open spec fn exported_value(state: ScrapeState, reading: Reading, i: int) -> i64 {
    gauge_value(counter_delta(reading.counters[i], previous_counters(state, reading.key)[i]))
}

/// Every metric without the series with these label values.
pub open spec fn without_series(series: Seq<Series>, labels: Seq<Seq<char>>) -> Seq<Series> {
    series.map_values(|s: Series| s.remove(label_hash(labels)))
}

/// Every metric without the series under these hashes.
pub open spec fn without_hashes(series: Seq<Series>, hashes: Set<u64>) -> Seq<Series> {
    series.map_values(|s: Series| s.remove_keys(hashes))
}

/// The port was last exported with other label values.
pub open spec fn relabelled(state: ScrapeState, reading: Reading) -> bool {
    state.labels.contains_key(reading.key) && state.labels[reading.key] != reading.labels
}

/// The series of every metric without those that the port was exported with under other label
/// values.
pub open spec fn series_kept(state: ScrapeState, reading: Reading) -> Seq<Series> {
    if relabelled(state, reading) {
        without_series(state.series, state.labels[reading.key])
    } else {
        state.series
    }
}

/// The state once a port has been read and exported.
pub open spec fn record(state: ScrapeState, reading: Reading) -> ScrapeState {
    let kept = series_kept(state, reading);
    ScrapeState {
        values: state.values.insert(reading.key, reading.counters),
        labels: state.labels.insert(reading.key, reading.labels),
        series: Seq::new(
            kept.len(),
            |i: int|
                with_value(
                    kept[i],
                    label_hash(reading.labels),
                    reading.labels,
                    exported_value(state, reading, i),
                ),
        ),
    }
}

/// The state once the ports have been read and exported, one after the other.
pub open spec fn record_all(state: ScrapeState, readings: Seq<Reading>) -> ScrapeState
    decreases readings.len(),
{
    if readings.len() == 0 {
        state
    } else {
        record(record_all(state, readings.drop_last()), readings.last())
    }
}

/// The hashes of the series of ports that are not in `active`.
pub open spec fn stale_hashes(state: ScrapeState, active: Set<Seq<char>>) -> Set<u64> {
    Set::new(
        |hash: u64|
            exists|key: Seq<char>|
                #![trigger state.labels.contains_key(key)]
                state.labels.contains_key(key) && !active.contains(key) && hash == label_hash(
                    state.labels[key],
                ),
    )
}

/// The state without what belongs to ports that are not in `active`.
pub open spec fn discard_stale(state: ScrapeState, active: Set<Seq<char>>) -> ScrapeState {
    ScrapeState {
        values: state.values.restrict(active),
        labels: state.labels.restrict(active),
        series: without_hashes(state.series, stale_hashes(state, active)),
    }
}

/// The keys of the ports that were read.
pub open spec fn reading_keys(readings: Seq<Reading>) -> Seq<Seq<char>> {
    readings.map_values(|reading: Reading| reading.key)
}

/// The state after a scrape that read these ports.
pub open spec fn scrape(state: ScrapeState, readings: Seq<Reading>) -> ScrapeState {
    record_all(discard_stale(state, reading_keys(readings).to_set()), readings)
}

/// The counters that are filed once these ports have been read without being exported.
pub open spec fn filed(values: Map<Seq<char>, Seq<u64>>, readings: Seq<Reading>) -> Map<
    Seq<char>,
    Seq<u64>,
>
    decreases readings.len(),
{
    if readings.len() == 0 {
        values
    } else {
        filed(values, readings.drop_last()).insert(readings.last().key, readings.last().counters)
    }
}

/// The state before the first scrape: the ports have been read, and nothing is exported.
pub open spec fn seeded(readings: Seq<Reading>, metrics: nat) -> ScrapeState {
    ScrapeState {
        values: filed(Map::empty(), readings),
        labels: Map::empty(),
        series: Seq::new(metrics, |i: int| Series::empty()),
    }
}

/// Some port is exported with these label values, under this hash.
pub open spec fn is_tracked(state: ScrapeState, hash: u64, labels: Seq<Seq<char>>) -> bool {
    hash == label_hash(labels) && exists|key: Seq<char>| #[trigger]
        state.labels.contains_key(key) && state.labels[key] == labels
}

/// Every exported series carries the label values of a port that the last scrape read.
pub open spec fn exports_only_tracked(state: ScrapeState) -> bool {
    forall|i: int, hash: u64|
        0 <= i < state.series.len() && #[trigger] state.series[i].contains_key(hash) ==> is_tracked(
            state,
            hash,
            state.series[i][hash].0,
        )
}

/// A provider of EFA metrics.
#[verifier::ext_equal]
pub struct ProviderView {
    pub platform: ComputePlatform,
    pub instance_id: Seq<char>,
    pub node_name: Seq<char>,
    pub srd_available: bool,
    /// The gauge family of each metric.
    pub families: Seq<Family>,
    pub state: ScrapeState,
}

impl ProviderView {
    /// The number of metrics.
    pub open spec fn metrics(self) -> nat {
        metric_count(self.srd_available)
    }

    /// There is a gauge family for each metric.
    pub open spec fn has_all_families(self) -> bool {
        &&& self.families.len() == self.metrics()
        &&& forall|i: int|
            0 <= i < self.families.len() ==> (#[trigger] self.families[i]).descriptor
                == efa_descriptor(self.platform, metric(i).0, metric(i).1)
    }

    /// A registry in this state shows the series of every metric: the collector that is registered
    /// for it reads the time series that the provider writes.
    pub open spec fn exposed_by(self, registry: RegistryState) -> bool {
        forall|i: int|
            0 <= i < self.families.len() ==> registry.stores.contains_key(
                (#[trigger] self.families[i]).id(),
            ) && registry.stores[self.families[i].id()] == self.families[i].store
    }

    /// The gauge families are those of the metrics, and everything kept has the right shape.
    pub open spec fn wf(self) -> bool {
        &&& self.has_all_families()
        &&& self.state.series.len() == self.metrics()
        &&& forall|key: Seq<char>| #[trigger]
            self.state.values.contains_key(key) ==> self.state.values[key].len() == self.metrics()
        &&& forall|key: Seq<char>| #[trigger]
            self.state.labels.contains_key(key) ==> self.state.labels[key].len() == label_names(
                self.platform,
            ).len()
        &&& exports_only_tracked(self.state)
    }

    /// The label values of a port.
    pub open spec fn labels_of(
        self,
        device: Seq<char>,
        port: Seq<char>,
        pods: PodsView,
    ) -> Seq<Seq<char>> {
        match self.platform {
            ComputePlatform::Ec2Plain => seq![self.instance_id, device, port],
            ComputePlatform::Ec2K8sEks | ComputePlatform::Ec2K8sVanilla => seq![
                self.instance_id,
                device,
                port,
                self.node_name,
                pod_of(pods, device).0,
                pod_of(pods, device).1,
            ],
        }
    }

    /// The counters of a port, each zero where it cannot be read.
    pub open spec fn counters_of(
        self,
        sysfs: SysfsSnapshot,
        device: Seq<char>,
        port: Seq<char>,
    ) -> Seq<u64> {
        Seq::new(
            self.metrics(),
            |i: int|
                match counter_reading(sysfs, device, port, counter_name(i)) {
                    Some(value) => value,
                    None => 0u64,
                },
        )
    }

    /// A port, as a scrape of `sysfs` reads it.
    pub open spec fn reading(
        self,
        sysfs: SysfsSnapshot,
        pods: PodsView,
        device: Seq<char>,
        port: Seq<char>,
    ) -> Reading {
        Reading {
            key: port_key(device, port),
            labels: self.labels_of(device, port, pods),
            counters: self.counters_of(sysfs, device, port),
        }
    }

    /// All ports, as a scrape of `sysfs` reads them.
    pub open spec fn readings(self, sysfs: SysfsSnapshot, pods: PodsView) -> Seq<Reading> {
        device_ports(sysfs).map_values(
            |pair: (Seq<char>, Seq<char>)| self.reading(sysfs, pods, pair.0, pair.1),
        )
    }

    /// The provider after a scrape of `sysfs`.
    pub open spec fn updated(self, sysfs: SysfsSnapshot, pods: PodsView) -> ProviderView {
        ProviderView { state: scrape(self.state, self.readings(sysfs, pods)), ..self }
    }
}

/// What a scrape reads does not depend on earlier scrapes.
pub proof fn lemma_readings_ignore_state(
    provider: ProviderView,
    state: ScrapeState,
    sysfs: SysfsSnapshot,
    pods: PodsView,
)
    ensures
        (ProviderView { state, ..provider }).readings(sysfs, pods) == provider.readings(sysfs, pods),
{
    let other = ProviderView { state, ..provider };
    assert forall|device: Seq<char>, port: Seq<char>| #[trigger]
        other.reading(sysfs, pods, device, port) == provider.reading(sysfs, pods, device, port) by {
        assert(other.counters_of(sysfs, device, port) =~= provider.counters_of(
            sysfs,
            device,
            port,
        ));
    }
    assert(other.readings(sysfs, pods) =~= provider.readings(sysfs, pods));
}

} // verus!
