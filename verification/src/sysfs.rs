//! What one reading of the InfiniBand directory of sysfs found, and what it says of EFA devices.
//!
//! The directory is laid out as `<device>/ports/<port>/hw_counters/<counter>`.
use vstd::prelude::*;

use crate::counter::{counter_value, parse_counter};
use crate::metrics::{counter_name, strip_efa_prefix, SRD_METRICS, STANDARD_METRICS};
use crate::provider::EfaMetricsProvider;
use crate::text::same_text;

verus! {

/// Directory that holds an entry for each EFA device.
pub const INFINIBAND_SYSFS_PATH: &'static str = "/sys/class/infiniband";

/// Directory of a device that holds an entry for each of its ports.
pub const PORTS_SUBDIR: &'static str = "ports";

/// Directory of a port that holds its counter files.
pub const HW_COUNTERS_DIR: &'static str = "hw_counters";

/// A file in the counter directory of a port.
pub struct CounterFile {
    pub name: String,
    /// The content, or `None` where it cannot be read as text.
    pub content: Option<String>,
}

/// An entry of the port directory of a device.
pub struct PortEntry {
    /// The name, or `None` where it is not text.
    pub name: Option<String>,
    /// Whether the port has a counter directory.
    pub has_counters: bool,
    /// The files that exist in the counter directory.
    pub counters: Vec<CounterFile>,
}

/// An entry of the InfiniBand directory.
pub struct DeviceEntry {
    /// The name, or `None` where it is not text.
    pub name: Option<String>,
    /// The entries of the port directory, each `None` where reading it failed; `None` where the
    /// directory cannot be read.
    pub ports: Option<Vec<Option<PortEntry>>>,
}

/// The InfiniBand directory as one reading of it found it.
pub struct SysfsSnapshot {
    /// The entries, each `None` where reading it failed; `None` where the directory cannot be
    /// read.
    pub devices: Option<Vec<Option<DeviceEntry>>>,
}

/// The directory holds an entry that can be read.
pub open spec fn devices_present(sysfs: SysfsSnapshot) -> bool {
    sysfs.devices matches Some(devices) && exists|i: int|
        0 <= i < devices.len() && #[trigger] devices[i] is Some
}

/// The port has a counter file called `name`.
pub open spec fn port_has_counter(port: Option<PortEntry>, name: Seq<char>) -> bool {
    port matches Some(p) && exists|i: int|
        0 <= i < p.counters.len() && (#[trigger] p.counters[i]).name@ == name
}

/// A port of the device has a counter file called `name`.
pub open spec fn device_has_counter(device: Option<DeviceEntry>, name: Seq<char>) -> bool {
    device matches Some(d) && d.ports matches Some(ports) && exists|i: int|
        0 <= i < ports.len() && port_has_counter(#[trigger] ports[i], name)
}

/// A port has the counter file of the first SRD metric.
pub open spec fn srd_supported(sysfs: SysfsSnapshot) -> bool {
    sysfs.devices matches Some(devices) && exists|i: int|
        0 <= i < devices.len() && device_has_counter(
            #[trigger] devices[i],
            counter_name(STANDARD_METRICS@.len() as int),
        )
}

/// Device and port name of a port entry that has a text name and a counter directory.
pub open spec fn port_pair(device: Seq<char>, port: Option<PortEntry>) -> Option<
    (Seq<char>, Seq<char>),
> {
    match port {
        Some(PortEntry { name: Some(name), has_counters: true, .. }) => Some((device, name@)),
        _ => None,
    }
}

/// Device and port names of the ports of a device entry that has a text name.
pub open spec fn port_pairs(device: Option<DeviceEntry>) -> Seq<(Seq<char>, Seq<char>)> {
    match device {
        Some(DeviceEntry { name: Some(name), ports: Some(ports) }) => ports@.filter_map(
            |port: Option<PortEntry>| port_pair(name@, port),
        ),
        _ => seq![],
    }
}

/// Device and port names of all ports with counters, in directory order.
pub open spec fn device_ports(sysfs: SysfsSnapshot) -> Seq<(Seq<char>, Seq<char>)> {
    match sysfs.devices {
        Some(devices) => devices@.flat_map(|device: Option<DeviceEntry>| port_pairs(device)),
        None => seq![],
    }
}

/// The device entry that is called `name`.
pub open spec fn find_device(devices: Seq<Option<DeviceEntry>>, name: Seq<char>) -> Option<
    DeviceEntry,
>
    decreases devices.len(),
{
    if devices.len() == 0 {
        None
    } else if devices[0] matches Some(d) && d.name matches Some(n) && n@ == name {
        devices[0]
    } else {
        find_device(devices.drop_first(), name)
    }
}

/// The port entry that is called `name`.
pub open spec fn find_port(ports: Seq<Option<PortEntry>>, name: Seq<char>) -> Option<PortEntry>
    decreases ports.len(),
{
    if ports.len() == 0 {
        None
    } else if ports[0] matches Some(p) && p.name matches Some(n) && n@ == name {
        ports[0]
    } else {
        find_port(ports.drop_first(), name)
    }
}

/// The counter file that is called `name`.
pub open spec fn find_counter(counters: Seq<CounterFile>, name: Seq<char>) -> Option<CounterFile>
    decreases counters.len(),
{
    if counters.len() == 0 {
        None
    } else if counters[0].name@ == name {
        Some(counters[0])
    } else {
        find_counter(counters.drop_first(), name)
    }
}

/// The text of the file `<device>/ports/<port>/hw_counters/<counter>`.
pub open spec fn counter_content(
    sysfs: SysfsSnapshot,
    device: Seq<char>,
    port: Seq<char>,
    counter: Seq<char>,
) -> Option<Seq<char>> {
    match sysfs.devices {
        Some(devices) => match find_device(devices@, device) {
            Some(DeviceEntry { ports: Some(ports), .. }) => match find_port(ports@, port) {
                Some(p) => match find_counter(p.counters@, counter) {
                    Some(CounterFile { content: Some(content), .. }) => Some(content@),
                    _ => None,
                },
                None => None,
            },
            _ => None,
        },
        None => None,
    }
}

/// The value of a counter, where its file holds one.
pub open spec fn counter_reading(
    sysfs: SysfsSnapshot,
    device: Seq<char>,
    port: Seq<char>,
    counter: Seq<char>,
) -> Option<u64> {
    match counter_content(sysfs, device, port, counter) {
        Some(content) => counter_value(content),
        None => None,
    }
}

/// The entry that [`find_device`] names.
fn lookup_device<'a>(devices: &'a Vec<Option<DeviceEntry>>, name: &str) -> (found: Option<
    &'a DeviceEntry,
>)
    ensures
        match found {
            Some(d) => find_device(devices@, name@) == Some(*d),
            None => find_device(devices@, name@) is None,
        },
{
    let mut i: usize = 0;
    assert(devices@.skip(0) =~= devices@);
    while i < devices.len()
        invariant
            i <= devices.len(),
            find_device(devices@, name@) == find_device(devices@.skip(i as int), name@),
        decreases devices.len() - i,
    {
        assert(devices@.skip(i as int).drop_first() =~= devices@.skip(i + 1));
        if let Some(device) = &devices[i] {
            if let Some(n) = &device.name {
                if same_text(n.as_str(), name) {
                    return Some(device);
                }
            }
        }
        i = i + 1;
    }
    None
}

/// The entry that [`find_port`] names.
fn lookup_port<'a>(ports: &'a Vec<Option<PortEntry>>, name: &str) -> (found: Option<&'a PortEntry>)
    ensures
        match found {
            Some(p) => find_port(ports@, name@) == Some(*p),
            None => find_port(ports@, name@) is None,
        },
{
    let mut i: usize = 0;
    assert(ports@.skip(0) =~= ports@);
    while i < ports.len()
        invariant
            i <= ports.len(),
            find_port(ports@, name@) == find_port(ports@.skip(i as int), name@),
        decreases ports.len() - i,
    {
        assert(ports@.skip(i as int).drop_first() =~= ports@.skip(i + 1));
        if let Some(port) = &ports[i] {
            if let Some(n) = &port.name {
                if same_text(n.as_str(), name) {
                    return Some(port);
                }
            }
        }
        i = i + 1;
    }
    None
}

/// The file that [`find_counter`] names.
fn lookup_counter<'a>(counters: &'a Vec<CounterFile>, name: &str) -> (found: Option<
    &'a CounterFile,
>)
    ensures
        match found {
            Some(c) => find_counter(counters@, name@) == Some(*c),
            None => find_counter(counters@, name@) is None,
        },
{
    let mut i: usize = 0;
    assert(counters@.skip(0) =~= counters@);
    while i < counters.len()
        invariant
            i <= counters.len(),
            find_counter(counters@, name@) == find_counter(counters@.skip(i as int), name@),
        decreases counters.len() - i,
    {
        assert(counters@.skip(i as int).drop_first() =~= counters@.skip(i + 1));
        if same_text(counters[i].name.as_str(), name) {
            return Some(&counters[i]);
        }
        i = i + 1;
    }
    None
}

proof fn lemma_found_counter(counters: Seq<CounterFile>, name: Seq<char>)
    ensures
        find_counter(counters, name) is Some <==> exists|i: int|
            0 <= i < counters.len() && (#[trigger] counters[i]).name@ == name,
    decreases counters.len(),
{
    if counters.len() > 0 && counters[0].name@ != name {
        let rest = counters.drop_first();
        lemma_found_counter(rest, name);
        if find_counter(rest, name) is Some {
            let i = choose|i: int| 0 <= i < rest.len() && (#[trigger] rest[i]).name@ == name;
            assert(counters[i + 1].name@ == name);
        }
        if exists|i: int| 0 <= i < counters.len() && (#[trigger] counters[i]).name@ == name {
            let i = choose|i: int| 0 <= i < counters.len() && (#[trigger] counters[i]).name@ == name;
            assert(rest[i - 1].name@ == name);
        }
    }
}

/// Whether a port of `device` has the counter file `name`.
fn any_port_has_counter(device: &DeviceEntry, name: &str) -> (found: bool)
    ensures
        found == device_has_counter(Some(*device), name@),
{
    let ports = match &device.ports {
        Some(ports) => ports,
        None => {
            return false;
        },
    };
    let mut i: usize = 0;
    while i < ports.len()
        invariant
            i <= ports.len(),
            device.ports == Some(*ports),
            forall|j: int| 0 <= j < i ==> !port_has_counter(#[trigger] ports[j], name@),
        decreases ports.len() - i,
    {
        if let Some(port) = &ports[i] {
            proof {
                lemma_found_counter(port.counters@, name@);
            }
            if lookup_counter(&port.counters, name).is_some() {
                assert(port_has_counter(ports[i as int], name@));
                assert(device.ports->0 == ports);
                return true;
            }
        }
        i = i + 1;
    }
    false
}

impl EfaMetricsProvider {
    /// Whether the InfiniBand directory holds an EFA device.
    pub fn efa_devices_present(sysfs: &SysfsSnapshot) -> (present: bool)
        ensures
            present == devices_present(*sysfs),
    {
        let devices = match &sysfs.devices {
            Some(devices) => devices,
            None => {
                return false;
            },
        };
        let mut i: usize = 0;
        while i < devices.len()
            invariant
                i <= devices.len(),
                sysfs.devices == Some(*devices),
                forall|j: int| 0 <= j < i ==> #[trigger] devices[j] is None,
            decreases devices.len() - i,
        {
            if devices[i].is_some() {
                return true;
            }
            i = i + 1;
        }
        false
    }

    /// Whether a device counts SRD retransmissions.
    pub fn detect_srd_support(sysfs: &SysfsSnapshot) -> (supported: bool)
        ensures
            supported == srd_supported(*sysfs),
    {
        let devices = match &sysfs.devices {
            Some(devices) => devices,
            None => {
                return false;
            },
        };
        let first_srd_metric = strip_efa_prefix(SRD_METRICS[0].0);
        let mut i: usize = 0;
        while i < devices.len()
            invariant
                i <= devices.len(),
                sysfs.devices == Some(*devices),
                first_srd_metric@ == counter_name(STANDARD_METRICS@.len() as int),
                forall|j: int|
                    0 <= j < i ==> !device_has_counter(#[trigger] devices[j], first_srd_metric@),
            decreases devices.len() - i,
        {
            if let Some(device) = &devices[i] {
                if any_port_has_counter(device, first_srd_metric) {
                    assert(device_has_counter(devices[i as int], first_srd_metric@));
                    assert(sysfs.devices->0 == devices);
                    return true;
                }
            }
            i = i + 1;
        }
        false
    }

    /// Device and port name of every port with counters, in directory order.
    pub fn discover_device_ports(sysfs: &SysfsSnapshot) -> (pairs: Vec<(String, String)>)
        ensures
            pairs.deep_view() == device_ports(*sysfs),
    {
        let mut pairs: Vec<(String, String)> = Vec::new();
        let devices = match &sysfs.devices {
            Some(devices) => devices,
            None => {
                return pairs;
            },
        };
        let mut i: usize = 0;
        let ghost per_device = |device: Option<DeviceEntry>| port_pairs(device);
        while i < devices.len()
            invariant
                i <= devices.len(),
                per_device == (|device: Option<DeviceEntry>| port_pairs(device)),
                pairs.deep_view() == devices@.take(i as int).flat_map(per_device),
            decreases devices.len() - i,
        {
            proof {
                devices@.lemma_flat_map_take_append(per_device, i as int);
            }
            if let Some(device) = &devices[i] {
                append_port_pairs(device, &mut pairs);
            }
            i = i + 1;
        }
        assert(devices@.take(devices.len() as int) =~= devices@);
        pairs
    }

    /// The value of a counter of a port, where its file holds one.
    pub fn read_counter(
        sysfs: &SysfsSnapshot,
        device: &str,
        port: &str,
        metric_name: &str,
    ) -> (value: Option<u64>)
        ensures
            value == counter_reading(*sysfs, device@, port@, metric_name@),
    {
        let devices = match &sysfs.devices {
            Some(devices) => devices,
            None => {
                return None;
            },
        };
        let ports = match lookup_device(devices, device) {
            Some(DeviceEntry { ports: Some(ports), .. }) => ports,
            _ => {
                return None;
            },
        };
        let counters = match lookup_port(ports, port) {
            Some(port) => &port.counters,
            None => {
                return None;
            },
        };
        match lookup_counter(counters, metric_name) {
            Some(CounterFile { content: Some(content), .. }) => parse_counter(content.as_str()),
            _ => None,
        }
    }
}

/// Appends the [`port_pairs`] of `device`.
fn append_port_pairs(device: &DeviceEntry, pairs: &mut Vec<(String, String)>)
    ensures
        final(pairs).deep_view() == old(pairs).deep_view() + port_pairs(Some(*device)),
{
    let ghost before = pairs.deep_view();
    let (name, ports) = match (&device.name, &device.ports) {
        (Some(name), Some(ports)) => (name, ports),
        _ => {
            assert(pairs.deep_view() =~= before + port_pairs(Some(*device)));
            return;
        },
    };
    let ghost per_port = |port: Option<PortEntry>| port_pair(name@, port);
    let mut i: usize = 0;
    assert(ports@.take(0).filter_map(per_port) =~= seq![]);
    while i < ports.len()
        invariant
            i <= ports.len(),
            per_port == (|port: Option<PortEntry>| port_pair(name@, port)),
            pairs.deep_view() == before + ports@.take(i as int).filter_map(per_port),
        decreases ports.len() - i,
    {
        proof {
            ports@.lemma_filter_map_take_succ(per_port, i as int);
        }
        let ghost so_far = pairs.deep_view();
        if let Some(port) = &ports[i] {
            if let Some(port_name) = &port.name {
                if port.has_counters {
                    pairs.push((name.clone(), port_name.clone()));
                    assert(pairs.deep_view() =~= so_far.push((name@, port_name@)));
                }
            }
        }
        assert(pairs.deep_view() =~= before + ports@.take(i + 1).filter_map(per_port));
        i = i + 1;
    }
    assert(ports@.take(ports.len() as int) =~= ports@);
}

} // verus!
