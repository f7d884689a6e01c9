//! The provider of EFA metrics.
use vstd::prelude::*;

use crate::counter::{as_gauge_value, compute_delta};
use crate::gauges::{
    accepts_next, after_registrations, build_gauge_metric, efa_descriptor, families_of,
    gauge_descriptor, gauge_series, gauge_store, register_families, registry_state, remove_series,
    set_series, with_value, GaugeFamily, RegistrationError, Series,
};
use crate::hash::label_hash;
use crate::laws::{law_discard_exports_only_tracked, law_record_exports_only_tracked};
use crate::metrics::{
    lemma_metric_valid, metric, metric_at, metric_count, number_of_metrics, strip_efa_prefix,
};
use crate::platform::{label_names, ComputePlatform};
use crate::pods::{pod_of, pods_view, EfaDeviceToPodMap};
use crate::provider_laws::law_registered_families_are_exposed;
use crate::scrape::{
    discard_stale, exported_value, exports_only_tracked, filed, is_tracked,
    lemma_readings_ignore_state, port_key, previous_counters, reading_keys, record, record_all,
    seeded, series_kept, stale_hashes, without_hashes, without_series, ProviderView,
    Reading, ScrapeState,
};
use crate::sysfs::{device_ports, srd_supported, SysfsSnapshot};
use crate::table::KeyTable;
use crate::text::{contains_text, same_texts};

verus! {

/// An error of the `anyhow` crate.
#[verifier::external_type_specification]
#[verifier::external_body]
pub struct ExAnyhowError(anyhow::Error);

/// Exports the change of every counter of every EFA port since the last scrape.
pub struct EfaMetricsProvider {
    compute_platform: ComputePlatform,
    instance_id: String,
    node_name: String,
    /// One gauge family for each metric: the standard metrics first, then the SRD metrics where
    /// they are available.
    gauges: Vec<GaugeFamily>,
    srd_available: bool,
    /// Counter values at the last reading of each port.
    previous_values: KeyTable<Vec<u64>>,
    /// Label values last emitted for each port. Used to detect label changes (pod reassignment)
    /// and device disappearance.
    previous_labels: KeyTable<Vec<String>>,
}

/// The series of gauge families.
spec fn series_of(gauges: Seq<GaugeFamily>) -> Seq<Series> {
    gauges.map_values(|family: GaugeFamily| gauge_series(family))
}

impl View for EfaMetricsProvider {
    type V = ProviderView;

    closed spec fn view(&self) -> ProviderView {
        ProviderView {
            platform: self.compute_platform,
            instance_id: self.instance_id@,
            node_name: self.node_name@,
            srd_available: self.srd_available,
            families: families_of(self.gauges@),
            state: ScrapeState {
                values: self.previous_values@,
                labels: self.previous_labels@,
                series: series_of(self.gauges@),
            },
        }
    }
}

/// The key that a port is filed under.
pub fn cache_key(device: &str, port: &str) -> (key: String)
    ensures
        key@ == port_key(device@, port@),
{
    proof {
        reveal_strlit("/");
    }
    assert("/"@ =~= seq!['/']);
    let mut key = device.to_owned();
    key.append("/");
    key.append(port);
    key
}

/// Removes the series with these label values from every family. A family that has no such series,
/// or has another number of labels, stays as it is.
fn remove_series_for_labels(gauges: &mut Vec<GaugeFamily>, old_labels: &Vec<String>)
    ensures
        families_of(final(gauges)@) == families_of(old(gauges)@),
        forall|i: int|
            0 <= i < old(gauges).len() ==> gauge_series(#[trigger] final(gauges)[i]) == if (
            gauge_descriptor(old(gauges)[i]).label_names.len() == old_labels.len()) {
                gauge_series(old(gauges)[i]).remove(label_hash(old_labels.deep_view()))
            } else {
                gauge_series(old(gauges)[i])
            },
{
    let ghost before = gauges@;
    let ghost hash = label_hash(old_labels.deep_view());
    let mut i: usize = 0;
    while i < gauges.len()
        invariant
            i <= gauges.len(),
            gauges.len() == before.len(),
            hash == label_hash(old_labels.deep_view()),
            forall|j: int|
                0 <= j < i ==> {
                    &&& gauge_series(#[trigger] gauges[j]) == if gauge_descriptor(
                        before[j],
                    ).label_names.len() == old_labels.len() {
                        gauge_series(before[j]).remove(hash)
                    } else {
                        gauge_series(before[j])
                    }
                    &&& gauge_descriptor(gauges[j]) == gauge_descriptor(before[j])
                    &&& gauge_store(gauges[j]) == gauge_store(before[j])
                },
            forall|j: int| i <= j < before.len() ==> #[trigger] gauges[j] == before[j],
        decreases before.len() - i,
    {
        assert(gauges[i as int] == before[i as int]);
        let removed = remove_series(&mut gauges[i], old_labels);
        proof {
            if !gauge_series(before[i as int]).contains_key(hash) {
                assert(gauge_series(before[i as int]).remove(hash) =~= gauge_series(
                    before[i as int],
                ));
            }
        }
        i = i + 1;
    }
    assert(families_of(gauges@) =~= families_of(before));
}

/// Families that all have as many labels as were given have lost the series with these labels.
proof fn lemma_series_removed(
    before: Seq<GaugeFamily>,
    after: Seq<GaugeFamily>,
    labels: Seq<Seq<char>>,
)
    requires
        families_of(after) == families_of(before),
        forall|i: int|
            0 <= i < before.len() ==> gauge_series(#[trigger] after[i]) == gauge_series(
                before[i],
            ).remove(label_hash(labels)),
    ensures
        series_of(after) == without_series(series_of(before), labels),
{
    assert(families_of(after).len() == after.len() && families_of(before).len() == before.len());
    let wanted = without_series(series_of(before), labels);
    assert forall|i: int| 0 <= i < before.len() implies #[trigger] series_of(after)[i]
        == wanted[i] by {
        assert(series_of(after)[i] == gauge_series(after[i]));
    }
    assert(series_of(after) =~= wanted);
}

proof fn lemma_nothing_removed(series: Seq<Series>)
    ensures
        without_hashes(series, Set::empty()) == series,
{
    assert forall|i: int| 0 <= i < series.len() implies #[trigger] without_hashes(
        series,
        Set::empty(),
    )[i] == series[i] by {
        assert(series[i].remove_keys(Set::empty()) =~= series[i]);
    }
    assert(without_hashes(series, Set::empty()) =~= series);
}

proof fn lemma_one_more_removed(series: Seq<Series>, hashes: Set<u64>, labels: Seq<Seq<char>>)
    ensures
        without_series(without_hashes(series, hashes), labels) == without_hashes(
            series,
            hashes.insert(label_hash(labels)),
        ),
{
    let left = without_series(without_hashes(series, hashes), labels);
    let right = without_hashes(series, hashes.insert(label_hash(labels)));
    assert forall|i: int| 0 <= i < series.len() implies #[trigger] left[i] == right[i] by {
        assert(left[i] =~= right[i]);
    }
    assert(left =~= right);
}

proof fn lemma_exports_ignore_values(before: ScrapeState, after: ScrapeState)
    requires
        exports_only_tracked(before),
        after.labels == before.labels,
        after.series == before.series,
    ensures
        exports_only_tracked(after),
{
    assert forall|i: int, hash: u64|
        0 <= i < after.series.len() && #[trigger] after.series[i].contains_key(hash) implies is_tracked(
        after,
        hash,
        after.series[i][hash].0,
    ) by {
        assert(is_tracked(before, hash, before.series[i][hash].0));
    }
}

impl EfaMetricsProvider {
    /// The provider has the gauge families of its metrics, and everything it keeps has the right
    /// shape.
    pub open spec fn wf(self) -> bool {
        self@.wf()
    }

    /// The view shows the provider as it is: every metric with the series, the descriptor and the
    /// store of its own gauge family, and what is kept as the tables hold it.
    proof fn law_view_shows_the_provider(self, i: int)
        requires
            0 <= i < self.gauges.len(),
        ensures
            self@.platform == self.compute_platform,
            self@.instance_id == self.instance_id@,
            self@.node_name == self.node_name@,
            self@.srd_available == self.srd_available,
            self@.families.len() == self.gauges.len(),
            self@.families[i].descriptor == gauge_descriptor(self.gauges[i]),
            self@.families[i].store == gauge_store(self.gauges[i]),
            self@.state.series.len() == self.gauges.len(),
            self@.state.series[i] == gauge_series(self.gauges[i]),
            self@.state.values == self.previous_values@,
            self@.state.labels == self.previous_labels@,
    {
    }

    /// Label values that are as many as the label names are as many in every family.
    proof fn lemma_label_count(self, labels: Seq<Seq<char>>)
        requires
            self@.has_all_families(),
            labels.len() == label_names(self@.platform).len(),
        ensures
            forall|i: int|
                0 <= i < self.gauges.len() ==> (#[trigger] gauge_descriptor(
                    self.gauges[i],
                )).label_names.len() == labels.len(),
    {
        assert forall|i: int| 0 <= i < self.gauges.len() implies (#[trigger] gauge_descriptor(
            self.gauges[i],
        )).label_names.len() == labels.len() by {
            self.law_view_shows_the_provider(i);
        }
    }

    /// The number of metrics of a port.
    pub fn total_metrics_count(&self) -> (n: usize)
        ensures
            n == self@.metrics(),
    {
        number_of_metrics(self.srd_available)
    }

    /// The counters of a port in the order of the metrics, each zero where it cannot be read.
    pub fn read_all_counters(&self, sysfs: &SysfsSnapshot, device: &str, port: &str) -> (values:
        Vec<u64>)
        ensures
            values@ == self@.counters_of(*sysfs, device@, port@),
    {
        let count = self.total_metrics_count();
        let ghost wanted = self@.counters_of(*sysfs, device@, port@);
        let mut values: Vec<u64> = Vec::new();
        while values.len() < count
            invariant
                count == self@.metrics(),
                values.len() <= count,
                wanted == self@.counters_of(*sysfs, device@, port@),
                values@ == wanted.take(values.len() as int),
            decreases count - values.len(),
        {
            let (metric_name, _) = metric_at(values.len());
            let sysfs_name = strip_efa_prefix(metric_name);
            let value: u64 = match Self::read_counter(sysfs, device, port, sysfs_name) {
                Some(value) => value,
                None => 0,
            };
            assert(value == wanted[values.len() as int]);
            values.push(value);
        }
        values
    }

    /// Name and namespace of the pod of a device, each `unknown` where no pod is known.
    pub fn resolve_pod_for_device(pods: Option<&EfaDeviceToPodMap>, device: &str) -> (pod: (
        String,
        String,
    ))
        ensures
            (pod.0@, pod.1@) == pod_of(pods_view(pods), device@),
    {
        if let Some(map) = pods {
            if let Some(info) = map.get(device) {
                return (info.pod_name.clone(), info.pod_namespace.clone());
            }
        }
        ("unknown".to_owned(), "unknown".to_owned())
    }

    /// The label values of a port, in the order of the label names.
    pub fn label_values(
        &self,
        device: &str,
        port: &str,
        pods: Option<&EfaDeviceToPodMap>,
    ) -> (labels: Vec<String>)
        ensures
            labels.deep_view() == self@.labels_of(device@, port@, pods_view(pods)),
    {
        let mut labels: Vec<String> = Vec::new();
        labels.push(self.instance_id.clone());
        labels.push(device.to_owned());
        labels.push(port.to_owned());
        match self.compute_platform {
            ComputePlatform::Ec2Plain => {},
            ComputePlatform::Ec2K8sEks | ComputePlatform::Ec2K8sVanilla => {
                let (pod_name, pod_namespace) = Self::resolve_pod_for_device(pods, device);
                labels.push(self.node_name.clone());
                labels.push(pod_name);
                labels.push(pod_namespace);
            },
        }
        assert(labels.deep_view() =~= self@.labels_of(device@, port@, pods_view(pods)));
        labels
    }

    /// Drops what belongs to ports that are not in `active_keys`: their counters, their labels and
    /// their series.
    fn discard_stale_series(&mut self, active_keys: &Vec<String>)
        requires
            old(self).wf(),
        ensures
            final(self).wf(),
            final(self)@ == (ProviderView {
                state: discard_stale(old(self)@.state, active_keys.deep_view().to_set()),
                ..old(self)@
            }),
    {
        let ghost before = self@;
        let ghost active = active_keys.deep_view().to_set();
        let keys = self.previous_labels.keys();
        let ghost names = keys.deep_view();
        let ghost mut gone: Set<u64> = Set::empty();
        proof {
            lemma_nothing_removed(before.state.series);
        }
        let mut i: usize = 0;
        while i < keys.len()
            invariant
                i <= keys.len(),
                before.wf(),
                active == active_keys.deep_view().to_set(),
                names == keys.deep_view(),
                names.no_duplicates(),
                names.to_set() == before.state.labels.dom(),
                self@.platform == before.platform,
                self@.instance_id == before.instance_id,
                self@.node_name == before.node_name,
                self@.srd_available == before.srd_available,
                self@.families == before.families,
                self@.state.values == before.state.values,
                self@.state.labels.submap_of(before.state.labels),
                forall|j: int|
                    0 <= j < names.len() ==> (self@.state.labels.contains_key(#[trigger] names[j])
                        <==> j >= i || active.contains(names[j])),
                self@.state.series == without_hashes(before.state.series, gone),
                forall|hash: u64| #[trigger]
                    gone.contains(hash) <==> exists|j: int|
                        0 <= j < i && !active.contains(#[trigger] names[j]) && hash == label_hash(
                            before.state.labels[names[j]],
                        ),
            decreases keys.len() - i,
        {
            let ghost name = names[i as int];
            assert(name == keys[i as int]@);
            assert(names.to_set().contains(name));
            if !contains_text(active_keys, keys[i].as_str()) {
                proof {
                    self.lemma_label_count(before.state.labels[name]);
                    lemma_one_more_removed(before.state.series, gone, before.state.labels[name]);
                    gone = gone.insert(label_hash(before.state.labels[name]));
                }
                let ghost labels = self@.state.labels;
                if let Some(old_labels) = self.previous_labels.remove(keys[i].as_str()) {
                    assert(self.previous_labels@ == labels.remove(name));
                    let ghost gauges = self.gauges@;
                    remove_series_for_labels(&mut self.gauges, &old_labels);
                    proof {
                        lemma_series_removed(gauges, self.gauges@, old_labels.deep_view());
                    }
                }
            }
            i = i + 1;
        }
        self.previous_values.retain_keys(active_keys);
        proof {
            let after = discard_stale(before.state, active);
            assert(self@.state.labels =~= after.labels) by {
                assert forall|key: Seq<char>| #[trigger]
                    before.state.labels.contains_key(key) implies (self@.state.labels.contains_key(key)
                    <==> active.contains(key)) by {
                    assert(names.to_set().contains(key));
                    let j = choose|j: int| 0 <= j < names.len() && names[j] == key;
                    assert(names[j] == key);
                }
            }
            assert(gone =~= stale_hashes(before.state, active)) by {
                assert forall|hash: u64| stale_hashes(before.state, active).contains(
                    hash,
                ) implies gone.contains(hash) by {
                    let key = choose|key: Seq<char>|
                        #![trigger before.state.labels.contains_key(key)]
                        before.state.labels.contains_key(key) && !active.contains(key) && hash
                            == label_hash(before.state.labels[key]);
                    assert(names.to_set().contains(key));
                    let j = choose|j: int| 0 <= j < names.len() && names[j] == key;
                    assert(!active.contains(names[j]));
                }
                assert forall|hash: u64| gone.contains(hash) implies stale_hashes(
                    before.state,
                    active,
                ).contains(hash) by {
                    let j = choose|j: int|
                        0 <= j < names.len() && !active.contains(#[trigger] names[j]) && hash
                            == label_hash(before.state.labels[names[j]]);
                    assert(names.to_set().contains(names[j]));
                    assert(before.state.labels.contains_key(names[j]));
                }
            }
            law_discard_exports_only_tracked(before.state, active);
            assert(self@.state =~= after);
        }
    }

    /// Exports the change of the counters of a port since its last reading, and keeps the reading.
    fn record_port(&mut self, key: String, labels: Vec<String>, current_values: Vec<u64>)
        requires
            old(self).wf(),
            labels.len() == label_names(old(self)@.platform).len(),
            current_values.len() == old(self)@.metrics(),
        ensures
            final(self).wf(),
            final(self)@ == (ProviderView {
                state: record(
                    old(self)@.state,
                    (Reading {
                        key: key@,
                        labels: labels.deep_view(),
                        counters: current_values@,
                    }),
                ),
                ..old(self)@
            }),
    {
        let ghost before = self@;
        let ghost reading = Reading {
            key: key@,
            labels: labels.deep_view(),
            counters: current_values@,
        };
        let previous: Vec<u64> = match self.previous_values.get(key.as_str()) {
            Some(values) => values.clone(),
            None => vec![0; self.total_metrics_count()],
        };
        assert(previous@ =~= previous_counters(before.state, key@));
        // Remove stale series when pod attribution changes. Never happens on EC2 without
        // Kubernetes, where the label values of a port do not change.
        if let Some(old_labels) = self.previous_labels.get(key.as_str()) {
            if !same_texts(old_labels, &labels) {
                proof {
                    self.lemma_label_count(old_labels.deep_view());
                }
                let ghost gauges = self.gauges@;
                remove_series_for_labels(&mut self.gauges, old_labels);
                proof {
                    lemma_series_removed(gauges, self.gauges@, old_labels.deep_view());
                }
            }
        }
        assert(self@.state.series == series_kept(before.state, reading));
        let ghost kept = self@;
        let mut i: usize = 0;
        while i < self.gauges.len()
            invariant
                i <= self.gauges.len(),
                self.gauges.len() == previous.len() == current_values.len(),
                self.gauges.len() == kept.state.series.len(),
                kept.families == before.families,
                kept.platform == before.platform,
                kept.has_all_families(),
                labels.len() == label_names(kept.platform).len(),
                self@ == (ProviderView {
                    state: ScrapeState { series: self@.state.series, ..kept.state },
                    ..kept
                }),
                previous@ == previous_counters(before.state, key@),
                reading == (Reading {
                    key: key@,
                    labels: labels.deep_view(),
                    counters: current_values@,
                }),
                forall|j: int|
                    i <= j < self.gauges.len() ==> #[trigger] self@.state.series[j]
                        == kept.state.series[j],
                forall|j: int|
                    0 <= j < i ==> #[trigger] self@.state.series[j] == with_value(
                        kept.state.series[j],
                        label_hash(reading.labels),
                        reading.labels,
                        exported_value(before.state, reading, j),
                    ),
            decreases self.gauges.len() - i,
        {
            let ghost so_far = self@;
            let ghost families = self.gauges@;
            proof {
                self.lemma_label_count(labels.deep_view());
                assert(gauge_descriptor(self.gauges[i as int]).label_names.len() == labels.len());
                assert(so_far.state.series[i as int] == gauge_series(self.gauges[i as int]));
            }
            let delta = compute_delta(current_values[i], previous[i]);
            set_series(&mut self.gauges[i], &labels, as_gauge_value(delta));
            proof {
                assert(families_of(self.gauges@) =~= families_of(families));
                assert(self@.state.series =~= so_far.state.series.update(
                    i as int,
                    gauge_series(self.gauges[i as int]),
                ));
            }
            i = i + 1;
        }
        assert(current_values.deep_view() =~= reading.counters);
        self.previous_labels.insert(key.clone(), labels);
        self.previous_values.insert(key, current_values);
        proof {
            law_record_exports_only_tracked(before.state, reading);
            assert(self@.state.series =~= record(before.state, reading).series);
            assert(self@.state =~= record(before.state, reading));
        }
    }

    /// Reads the counters of every port without exporting anything, so that the first scrape
    /// exports what has changed since, and not all that was ever counted.
    fn seed_cache(&mut self, sysfs: &SysfsSnapshot)
        requires
            old(self).wf(),
        ensures
            final(self).wf(),
            final(self)@ == (ProviderView {
                state: ScrapeState {
                    values: filed(
                        old(self)@.state.values,
                        old(self)@.readings(*sysfs, None),
                    ),
                    ..old(self)@.state
                },
                ..old(self)@
            }),
    {
        let ghost before = self@;
        let ghost readings = before.readings(*sysfs, None);
        let pairs = Self::discover_device_ports(sysfs);
        let mut i: usize = 0;
        assert(readings.take(0) =~= seq![]);
        while i < pairs.len()
            invariant
                i <= pairs.len(),
                pairs.deep_view() == device_ports(*sysfs),
                readings == before.readings(*sysfs, None),
                before.wf(),
                self@ == (ProviderView {
                    state: ScrapeState {
                        values: filed(before.state.values, readings.take(i as int)),
                        ..before.state
                    },
                    ..before
                }),
                self.wf(),
            decreases pairs.len() - i,
        {
            let (device, port) = &pairs[i];
            assert(pairs.deep_view()[i as int] == (device@, port@));
            let key = cache_key(device.as_str(), port.as_str());
            let values = self.read_all_counters(sysfs, device.as_str(), port.as_str());
            assert(values.deep_view() =~= values@);
            assert(readings.take(i + 1).drop_last() =~= readings.take(i as int));
            let ghost so_far = self@.state.values;
            self.previous_values.insert(key, values);
            assert(self@.state =~= (ScrapeState {
                values: filed(before.state.values, readings.take(i + 1)),
                ..before.state
            }));
            proof {
                lemma_exports_ignore_values(before.state, self@.state);
                assert forall|k: Seq<char>| #[trigger]
                    self@.state.values.contains_key(k) implies self@.state.values[k].len()
                    == self@.metrics() by {
                    assert(k != key@ ==> so_far.contains_key(k));
                }
            }
            i = i + 1;
        }
        assert(readings.take(readings.len() as int) =~= readings);
    }

    /// Exports the change of every counter of every port since its last reading, and drops the
    /// series of ports that have disappeared and of pods that no longer have the device.
    ///
    /// Never fails.
    pub fn update_metrics(
        &mut self,
        sysfs: &SysfsSnapshot,
        device_to_pod_map: Option<&EfaDeviceToPodMap>,
    ) -> (result: Result<(), anyhow::Error>)
        requires
            old(self).wf(),
        ensures
            result is Ok,
            final(self).wf(),
            final(self)@ == old(self)@.updated(*sysfs, pods_view(device_to_pod_map)),
    {
        let ghost before = self@;
        let ghost pods = pods_view(device_to_pod_map);
        let ghost readings = before.readings(*sysfs, pods);
        let pairs = Self::discover_device_ports(sysfs);
        let mut active_keys: Vec<String> = Vec::new();
        let mut i: usize = 0;
        while i < pairs.len()
            invariant
                i <= pairs.len(),
                pairs.deep_view() == device_ports(*sysfs),
                readings == before.readings(*sysfs, pods),
                active_keys.deep_view() == reading_keys(readings).take(i as int),
            decreases pairs.len() - i,
        {
            let (device, port) = &pairs[i];
            assert(pairs.deep_view()[i as int] == (device@, port@));
            let ghost so_far = active_keys.deep_view();
            active_keys.push(cache_key(device.as_str(), port.as_str()));
            assert(active_keys.deep_view() =~= so_far.push(reading_keys(readings)[i as int]));
            i = i + 1;
        }
        assert(active_keys.deep_view() =~= reading_keys(readings));
        self.discard_stale_series(&active_keys);
        let ghost kept = self@.state;
        i = 0;
        assert(readings.take(0) =~= seq![]);
        while i < pairs.len()
            invariant
                i <= pairs.len(),
                pairs.deep_view() == device_ports(*sysfs),
                pods == pods_view(device_to_pod_map),
                readings == before.readings(*sysfs, pods),
                self.wf(),
                self@ == (ProviderView {
                    state: record_all(kept, readings.take(i as int)),
                    ..before
                }),
            decreases pairs.len() - i,
        {
            let (device, port) = &pairs[i];
            assert(pairs.deep_view()[i as int] == (device@, port@));
            let key = cache_key(device.as_str(), port.as_str());
            let current_values = self.read_all_counters(sysfs, device.as_str(), port.as_str());
            let labels = self.label_values(device.as_str(), port.as_str(), device_to_pod_map);
            assert(readings.take(i + 1).drop_last() =~= readings.take(i as int));
            assert(labels.len() == labels.deep_view().len());
            self.record_port(key, labels, current_values);
            i = i + 1;
        }
        assert(readings.take(readings.len() as int) =~= readings);
        Ok(())
    }

    /// A provider for a node, with the counters of every port as `sysfs` has them and nothing
    /// exported. A node without a name is called `unknown`.
    pub fn new(
        compute_platform: &ComputePlatform,
        instance_id: String,
        node_name: Option<String>,
        sysfs: &SysfsSnapshot,
    ) -> (provider: Self)
        ensures
            provider.wf(),
            provider@.platform == *compute_platform,
            provider@.instance_id == instance_id@,
            provider@.node_name == match node_name {
                Some(name) => name@,
                None => "unknown"@,
            },
            provider@.srd_available == srd_supported(*sysfs),
            provider@.state == seeded(
                provider@.readings(*sysfs, None),
                metric_count(srd_supported(*sysfs)),
            ),
    {
        let srd_available = Self::detect_srd_support(sysfs);
        let count = number_of_metrics(srd_available);
        let mut gauges: Vec<GaugeFamily> = Vec::new();
        while gauges.len() < count
            invariant
                count == metric_count(srd_available),
                gauges.len() <= count,
                forall|i: int|
                    0 <= i < gauges.len() ==> gauge_descriptor(#[trigger] gauges[i])
                        == efa_descriptor(*compute_platform, metric(i).0, metric(i).1)
                        && gauge_series(gauges[i]) == Series::empty(),
            decreases count - gauges.len(),
        {
            let (name, description) = metric_at(gauges.len());
            proof {
                lemma_metric_valid(gauges.len() as int);
            }
            gauges.push(build_gauge_metric(compute_platform, name, description));
        }
        let node_name = match node_name {
            Some(name) => name,
            None => "unknown".to_owned(),
        };
        let mut provider = EfaMetricsProvider {
            compute_platform: *compute_platform,
            instance_id,
            node_name,
            gauges,
            srd_available,
            previous_values: KeyTable::new(),
            previous_labels: KeyTable::new(),
        };
        proof {
            assert(provider@.has_all_families());
            assert(provider@.state.series =~= Seq::new(
                metric_count(srd_available),
                |i: int| Series::empty(),
            ));
        }
        let ghost unseeded = provider@;
        provider.seed_cache(sysfs);
        proof {
            lemma_readings_ignore_state(unseeded, provider@.state, *sysfs, None);
        }
        provider
    }

    /// Registers the gauge family of every metric, until one is refused. The registry then reads
    /// the time series that later scrapes write.
    pub fn register_to(
        &self,
        registry: &mut prometheus::Registry,
    ) -> (registered: Result<(), RegistrationError>)
        ensures
            registered is Ok <==> forall|i: int|
                0 <= i < self@.families.len() ==> accepts_next(
                    registry_state(*old(registry)),
                    self@.families,
                    i,
                ),
            registered is Ok ==> registry_state(*final(registry)) == after_registrations(
                registry_state(*old(registry)),
                self@.families,
            ),
            registered is Ok ==> self@.exposed_by(registry_state(*final(registry))),
            registered matches Err(e) ==> {
                &&& e.family < self@.families.len()
                &&& !accepts_next(
                    registry_state(*old(registry)),
                    self@.families,
                    e.family as int,
                )
                &&& forall|i: int|
                    0 <= i < e.family ==> accepts_next(
                        registry_state(*old(registry)),
                        self@.families,
                        i,
                    )
                &&& registry_state(*final(registry)) == after_registrations(
                    registry_state(*old(registry)),
                    self@.families.take(e.family + 1),
                )
            },
    {
        assert(self@.families.len() == self.gauges.len());
        let registered = register_families(registry, &self.gauges);
        proof {
            if registered is Ok {
                law_registered_families_are_exposed(self@, registry_state(*old(registry)));
            }
        }
        registered
    }

    /// The counters of each port at its last reading, by cache key.
    pub fn previous_values(&self) -> (values: &KeyTable<Vec<u64>>)
        ensures
            values@ == self@.state.values,
    {
        &self.previous_values
    }
}

} // verus!
