//! Gauge families of the `prometheus` crate and the registry that exposes them.
use vstd::prelude::*;

use crate::hash::{label_hash, metric_id};
use crate::platform::{label_names, ComputePlatform, EfaMetric};

verus! {

/// What a gauge family is described by.
pub struct Descriptor {
    pub name: Seq<char>,
    pub help: Seq<char>,
    pub label_names: Seq<Seq<char>>,
}

/// One time series for each combination of label values, under the hash of these values: the
/// label values that the series was created with, and its value.
pub type Series = Map<u64, (Seq<Seq<char>>, i64)>;

/// `c` can stand anywhere in a label name.
pub open spec fn is_name_char(c: char) -> bool {
    'a' <= c <= 'z' || 'A' <= c <= 'Z' || c == '_'
}

/// `text` matches `[a-zA-Z_:][a-zA-Z0-9_:]*`.
pub open spec fn valid_metric_name(text: Seq<char>) -> bool {
    &&& text.len() > 0
    &&& is_name_char(text[0]) || text[0] == ':'
    &&& forall|i: int|
        0 <= i < text.len() ==> is_name_char(#[trigger] text[i]) || text[i] == ':' || '0' <= text[i]
            <= '9'
}

/// `text` matches `[a-zA-Z_][a-zA-Z0-9_]*`.
pub open spec fn valid_label_name(text: Seq<char>) -> bool {
    &&& text.len() > 0
    &&& is_name_char(text[0])
    &&& forall|i: int|
        0 <= i < text.len() ==> is_name_char(#[trigger] text[i]) || '0' <= text[i] <= '9'
}

/// A family can be described so: a help text, valid names, and no label name twice.
pub open spec fn valid_descriptor(descriptor: Descriptor) -> bool {
    &&& descriptor.help.len() > 0
    &&& valid_metric_name(descriptor.name)
    &&& forall|i: int|
        0 <= i < descriptor.label_names.len() ==> valid_label_name(
            #[trigger] descriptor.label_names[i],
        )
    &&& descriptor.label_names.no_duplicates()
}

/// `series` once the series under `hash` has been set for these label values: a series that is
/// there already keeps the label values that it was created with.
pub open spec fn with_value(
    series: Series,
    hash: u64,
    labels: Seq<Seq<char>>,
    value: i64,
) -> Series {
    if series.contains_key(hash) {
        series.insert(hash, (series[hash].0, value))
    } else {
        series.insert(hash, (labels, value))
    }
}

/// A series that was set reads back as it was set, a new one carries the label values that it was
/// set with, and every other series is as it was.
pub proof fn law_set_series_reads_back(
    series: Series,
    hash: u64,
    labels: Seq<Seq<char>>,
    value: i64,
    other: u64,
)
    requires
        other != hash,
    ensures
        with_value(series, hash, labels, value).contains_key(hash),
        with_value(series, hash, labels, value)[hash].1 == value,
        with_value(series, hash, labels, value)[hash].0 == if series.contains_key(hash) {
            series[hash].0
        } else {
            labels
        },
        with_value(series, hash, labels, value).contains_key(other) == series.contains_key(other),
        series.contains_key(other) ==> with_value(series, hash, labels, value)[other]
            == series[other],
{
}

/// A `prometheus::IntGaugeVec` without constant labels.
#[verifier::external_body]
pub struct GaugeFamily {
    inner: prometheus::IntGaugeVec,
}

/// A registry of the `prometheus` crate.
#[verifier::external_type_specification]
#[verifier::external_body]
pub struct ExRegistry(prometheus::Registry);

/// An error of the `prometheus` crate.
#[verifier::external_type_specification]
#[verifier::external_body]
pub struct ExPrometheusError(prometheus::Error);

/// The time series of a gauge family, as left by the calls made through its exclusive borrows.
/// Clones of the family that a registry holds share the series and only read them.
pub uninterp spec fn gauge_series(family: GaugeFamily) -> Series;

/// What a gauge family was created with.
pub uninterp spec fn gauge_descriptor(family: GaugeFamily) -> Descriptor;

/// Which time series a gauge family writes: clones of a family write the same.
pub uninterp spec fn gauge_store(family: GaugeFamily) -> int;

/// The hash of help text and label names of a descriptor without constant labels, as
/// `prometheus::core::Desc::new` computes it.
pub uninterp spec fn dimension_hash(help: Seq<char>, label_names: Seq<Seq<char>>) -> u64;

/// The identifiers of the descriptors that are registered.
pub uninterp spec fn registry_ids(registry: prometheus::Registry) -> Set<u64>;

/// The dimension hash of each metric name that a registration has named.
pub uninterp spec fn registry_dimensions(registry: prometheus::Registry) -> Map<Seq<char>, u64>;

/// Which time series each registered collector reads, by the identifier of the collector. A
/// collector of one descriptor has the identifier of the descriptor.
pub uninterp spec fn registry_stores(registry: prometheus::Registry) -> Map<u64, int>;

/// Creates a gauge family without series. Calls `prometheus::IntGaugeVec::new` with
/// `prometheus::Opts::new`.
///
/// The contract claims that the call succeeds for valid descriptors and for no others: a help text
/// that is not empty, a valid metric name, and valid label names without repetition.
#[verifier::external_body]
fn new_gauge_family(name: &str, help: &str, labels: &[&str]) -> (family: Result<
    GaugeFamily,
    prometheus::Error,
>)
    ensures
        family is Ok <==> valid_descriptor(
            (Descriptor { name: name@, help: help@, label_names: labels.deep_view() }),
        ),
        family matches Ok(g) ==> gauge_descriptor(g) == (Descriptor {
            name: name@,
            help: help@,
            label_names: labels.deep_view(),
        }),
        family matches Ok(g) ==> gauge_series(g).is_empty(),
{
    match prometheus::IntGaugeVec::new(prometheus::Opts::new(name, help), labels) {
        Ok(inner) => Ok(GaugeFamily { inner }),
        Err(error) => Err(error),
    }
}

/// Sets the series with the given label values, creating it where there is none. Calls
/// `with_label_values` of `prometheus::IntGaugeVec` and `set` of the gauge that it returns.
///
/// The contract claims that the series filed under the hash of the label values gets the value,
/// that a series which is there already keeps the label values it was created with, and that
/// nothing else changes, so that the family goes on writing the time series that it shares with its
/// clones. The call panics where the number of label values is not that of the label names.
#[verifier::external_body]
pub(crate) fn set_series(family: &mut GaugeFamily, labels: &Vec<String>, value: i64)
    requires
        labels.len() == gauge_descriptor(*old(family)).label_names.len(),
    ensures
        gauge_series(*final(family)) == with_value(
            gauge_series(*old(family)),
            label_hash(labels.deep_view()),
            labels.deep_view(),
            value,
        ),
        gauge_descriptor(*final(family)) == gauge_descriptor(*old(family)),
        gauge_store(*final(family)) == gauge_store(*old(family)),
{
    family.inner.with_label_values(labels.as_slice()).set(value);
}

/// Removes the series with the given label values. Calls `remove_label_values` of
/// `prometheus::IntGaugeVec`.
///
/// The contract claims that the series filed under the hash of the label values is gone and nothing
/// else changes, and that the call fails, changing nothing, where there is no such series or the
/// number of label values is not that of the label names. Either way the family goes on writing the
/// time series that it shares with its clones.
#[verifier::external_body]
pub(crate) fn remove_series(family: &mut GaugeFamily, labels: &Vec<String>) -> (removed: Result<
    (),
    prometheus::Error,
>)
    ensures
        removed is Ok <==> labels.len() == gauge_descriptor(*old(family)).label_names.len()
            && gauge_series(*old(family)).contains_key(
            label_hash(labels.deep_view()),
        ),
        gauge_series(*final(family)) == if removed is Ok {
            gauge_series(*old(family)).remove(label_hash(labels.deep_view()))
        } else {
            gauge_series(*old(family))
        },
        gauge_descriptor(*final(family)) == gauge_descriptor(*old(family)),
        gauge_store(*final(family)) == gauge_store(*old(family)),
{
    family.inner.remove_label_values(labels.as_slice())
}

/// A registry, by what decides whether it accepts a family and by what it reads.
#[verifier::ext_equal]
pub struct RegistryState {
    /// The identifiers of the registered descriptors.
    pub ids: Set<u64>,
    /// The dimension hash of each metric name that a registration has named.
    pub dimensions: Map<Seq<char>, u64>,
    /// Which time series each registered collector reads.
    pub stores: Map<u64, int>,
}

/// The state of `registry`.
pub open spec fn registry_state(registry: prometheus::Registry) -> RegistryState {
    RegistryState {
        ids: registry_ids(registry),
        dimensions: registry_dimensions(registry),
        stores: registry_stores(registry),
    }
}

/// A registry in this state knows `name` with other dimensions.
pub open spec fn dimensions_differ(
    state: RegistryState,
    name: Seq<char>,
    dimensions: u64,
) -> bool {
    state.dimensions.contains_key(name) && state.dimensions[name] != dimensions
}

/// A registry in this state accepts a family with this name and these dimensions: its identifier is
/// free, and its name was not registered with another help text or other label names.
pub open spec fn accepts(state: RegistryState, name: Seq<char>, dimensions: u64) -> bool {
    &&& !state.ids.contains(metric_id(name))
    &&& !state.stores.contains_key(metric_id(name))
    &&& !dimensions_differ(state, name, dimensions)
}

/// The state of a registry that was asked to register a family with this name, these dimensions and
/// these time series. Where only the identifier of the collector is taken, the dimensions of the
/// name stay behind.
pub open spec fn after_registration(
    state: RegistryState,
    name: Seq<char>,
    dimensions: u64,
    store: int,
) -> RegistryState {
    if accepts(state, name, dimensions) {
        RegistryState {
            ids: state.ids.insert(metric_id(name)),
            dimensions: state.dimensions.insert(name, dimensions),
            stores: state.stores.insert(metric_id(name), store),
        }
    } else if state.ids.contains(metric_id(name)) || dimensions_differ(state, name, dimensions) {
        state
    } else {
        RegistryState { dimensions: state.dimensions.insert(name, dimensions), ..state }
    }
}

/// Registers a clone of `family`, which shares its time series. Calls `register` of
/// `prometheus::Registry`.
///
/// The contract claims that the registration succeeds exactly where [`accepts`] says so, that a
/// registered collector reads the time series that `family` writes, and that a refused one changes
/// nothing but, at most, the dimensions of its name. It speaks of changes made through this borrow
/// of the registry.
#[verifier::external_body]
fn register_family(
    registry: &mut prometheus::Registry,
    family: &GaugeFamily,
) -> (registered: Result<(), prometheus::Error>)
    ensures
        registered is Ok <==> accepts(
            registry_state(*old(registry)),
            gauge_descriptor(*family).name,
            dimension_hash(gauge_descriptor(*family).help, gauge_descriptor(*family).label_names),
        ),
        registry_ids(*final(registry)) == after_registration(
            registry_state(*old(registry)),
            gauge_descriptor(*family).name,
            dimension_hash(gauge_descriptor(*family).help, gauge_descriptor(*family).label_names),
            gauge_store(*family),
        ).ids,
        registry_dimensions(*final(registry)) == after_registration(
            registry_state(*old(registry)),
            gauge_descriptor(*family).name,
            dimension_hash(gauge_descriptor(*family).help, gauge_descriptor(*family).label_names),
            gauge_store(*family),
        ).dimensions,
        registry_stores(*final(registry)) == after_registration(
            registry_state(*old(registry)),
            gauge_descriptor(*family).name,
            dimension_hash(gauge_descriptor(*family).help, gauge_descriptor(*family).label_names),
            gauge_store(*family),
        ).stores,
{
    registry.register(Box::new(family.inner.clone()))
}

proof fn lemma_label_names_valid(platform: ComputePlatform)
    ensures
        label_names(platform).no_duplicates(),
        forall|i: int|
            0 <= i < label_names(platform).len() ==> valid_label_name(
                #[trigger] label_names(platform)[i],
            ),
{
    reveal_strlit("instance_id");
    reveal_strlit("device");
    reveal_strlit("port");
    reveal_strlit("node");
    reveal_strlit("pod");
    reveal_strlit("namespace");
    assert("instance_id"@.len() == 11 && "device"@.len() == 6 && "port"@.len() == 4);
    assert("node"@.len() == 4 && "pod"@.len() == 3 && "namespace"@.len() == 9);
    assert("port"@ != "node"@) by {
        assert("port"@[0] == 'p' && "node"@[0] == 'n');
    }
}

/// The descriptor of the EFA metric with this name and help text.
pub open spec fn efa_descriptor(
    platform: ComputePlatform,
    name: Seq<char>,
    help: Seq<char>,
) -> Descriptor {
    Descriptor { name, help, label_names: label_names(platform) }
}

/// Creates the gauge family of a metric, without series.
pub fn build_gauge_metric(
    compute_platform: &ComputePlatform,
    name: &str,
    description: &str,
) -> (family: GaugeFamily)
    requires
        valid_metric_name(name@),
        description@.len() > 0,
    ensures
        gauge_descriptor(family) == efa_descriptor(*compute_platform, name@, description@),
        gauge_series(family) == Series::empty(),
{
    proof {
        lemma_label_names_valid(*compute_platform);
    }
    let family = new_gauge_family(name, description, EfaMetric::get_labels(compute_platform));
    let family = family.unwrap();
    assert(gauge_series(family) =~= Series::empty());
    family
}

/// A gauge family as a registry sees it: its descriptor, and the time series that it writes.
pub struct Family {
    pub descriptor: Descriptor,
    pub store: int,
}

impl Family {
    /// The identifier of the family.
    pub open spec fn id(self) -> u64 {
        metric_id(self.descriptor.name)
    }

    /// The dimensions of the family.
    pub open spec fn dimensions(self) -> u64 {
        dimension_hash(self.descriptor.help, self.descriptor.label_names)
    }
}

/// The state of a registry that was asked to register the families, one after the other.
pub open spec fn after_registrations(state: RegistryState, families: Seq<Family>) -> RegistryState
    decreases families.len(),
{
    if families.len() == 0 {
        state
    } else {
        after_registration(
            after_registrations(state, families.drop_last()),
            families.last().descriptor.name,
            families.last().dimensions(),
            families.last().store,
        )
    }
}

/// A registry in this state that was asked to register the families before `i` accepts family `i`.
pub open spec fn accepts_next(state: RegistryState, families: Seq<Family>, i: int) -> bool {
    accepts(
        after_registrations(state, families.take(i)),
        families[i].descriptor.name,
        families[i].dimensions(),
    )
}

/// Gauge families, as a registry sees them.
pub open spec fn families_of(gauges: Seq<GaugeFamily>) -> Seq<Family> {
    gauges.map_values(
        |family: GaugeFamily|
            Family { descriptor: gauge_descriptor(family), store: gauge_store(family) },
    )
}

/// A registry did not accept a family.
#[derive(Clone, Copy, Debug, PartialEq, Eq, Structural)]
pub struct RegistrationError {
    /// Position of the family among those to register.
    pub family: usize,
}

/// Registers `families` in order, until one is refused.
pub fn register_families(
    registry: &mut prometheus::Registry,
    families: &Vec<GaugeFamily>,
) -> (registered: Result<(), RegistrationError>)
    ensures
        registered is Ok <==> forall|i: int|
            0 <= i < families.len() ==> accepts_next(
                registry_state(*old(registry)),
                families_of(families@),
                i,
            ),
        registered is Ok ==> registry_state(*final(registry)) == after_registrations(
            registry_state(*old(registry)),
            families_of(families@),
        ),
        registered matches Err(e) ==> {
            &&& e.family < families.len()
            &&& !accepts_next(
                registry_state(*old(registry)),
                families_of(families@),
                e.family as int,
            )
            &&& forall|i: int|
                0 <= i < e.family ==> accepts_next(
                    registry_state(*old(registry)),
                    families_of(families@),
                    i,
                )
            &&& registry_state(*final(registry)) == after_registrations(
                registry_state(*old(registry)),
                families_of(families@).take(e.family + 1),
            )
        },
{
    let ghost start = registry_state(*registry);
    let ghost wanted = families_of(families@);
    let mut i: usize = 0;
    assert(wanted.take(0) =~= seq![]);
    while i < families.len()
        invariant
            i <= families.len(),
            start == registry_state(*old(registry)),
            wanted == families_of(families@),
            registry_state(*registry) == after_registrations(start, wanted.take(i as int)),
            forall|j: int| 0 <= j < i ==> accepts_next(start, wanted, j),
        decreases families.len() - i,
    {
        assert(wanted.take(i + 1).drop_last() =~= wanted.take(i as int));
        let registered = register_family(registry, &families[i]);
        assert(registry_state(*registry) =~= after_registrations(start, wanted.take(i + 1)));
        if registered.is_err() {
            assert(!accepts_next(start, wanted, i as int));
            return Err(RegistrationError { family: i });
        }
        assert(accepts_next(start, wanted, i as int));
        i = i + 1;
    }
    assert(wanted.take(wanted.len() as int) =~= wanted);
    Ok(())
}

} // verus!
