//! What readings of the InfiniBand directory say, entry by entry and file by file.
use vstd::prelude::*;

use crate::counter_laws::{holds_number, law_counter_files_hold_numbers};
use crate::metrics::{counter_name, law_metric_names_have_efa_prefix, metric};
use crate::sysfs::{
    counter_content, counter_reading, device_has_counter, device_ports, devices_present,
    find_counter, find_device, find_port, port_has_counter, port_pair, port_pairs, srd_supported,
    CounterFile, DeviceEntry, PortEntry, SysfsSnapshot, HW_COUNTERS_DIR, INFINIBAND_SYSFS_PATH,
    PORTS_SUBDIR,
};

verus! {

/// Entry `i` of the InfiniBand directory, where there is one and it can be read.
pub open spec fn device_at(sysfs: SysfsSnapshot, i: int) -> Option<DeviceEntry> {
    match sysfs.devices {
        Some(devices) => if 0 <= i < devices@.len() {
            devices@[i]
        } else {
            None
        },
        None => None,
    }
}

/// Entry `j` of the port directory of device entry `i`, where there is one and it can be read.
pub open spec fn port_at(sysfs: SysfsSnapshot, i: int, j: int) -> Option<PortEntry> {
    match device_at(sysfs, i) {
        Some(device) => match device.ports {
            Some(ports) => if 0 <= j < ports@.len() {
                ports@[j]
            } else {
                None
            },
            None => None,
        },
        None => None,
    }
}

/// File `k` in the counter directory of a port entry, where there is one.
pub open spec fn file_at(sysfs: SysfsSnapshot, i: int, j: int, k: int) -> Option<CounterFile> {
    match port_at(sysfs, i, j) {
        Some(port) => if 0 <= k < port.counters@.len() {
            Some(port.counters@[k])
        } else {
            None
        },
        None => None,
    }
}

/// Device entry `i` is called `name`.
pub open spec fn device_called(sysfs: SysfsSnapshot, i: int, name: Seq<char>) -> bool {
    match device_at(sysfs, i) {
        Some(device) => device.name is Some && device.name->0@ == name,
        None => false,
    }
}

/// Port entry `j` of device entry `i` is called `name`.
pub open spec fn port_called(sysfs: SysfsSnapshot, i: int, j: int, name: Seq<char>) -> bool {
    match port_at(sysfs, i, j) {
        Some(port) => port.name is Some && port.name->0@ == name,
        None => false,
    }
}

/// File `k` of a port entry is called `name`.
pub open spec fn file_called(
    sysfs: SysfsSnapshot,
    i: int,
    j: int,
    k: int,
    name: Seq<char>,
) -> bool {
    match file_at(sysfs, i, j, k) {
        Some(file) => file.name@ == name,
        None => false,
    }
}

/// The names of device entry `i`, its port entry `j` and the file `k` there.
pub open spec fn path_called(
    sysfs: SysfsSnapshot,
    i: int,
    j: int,
    k: int,
    device: Seq<char>,
    port: Seq<char>,
    counter: Seq<char>,
) -> bool {
    &&& device_called(sysfs, i, device)
    &&& port_called(sysfs, i, j, port)
    &&& file_called(sysfs, i, j, k, counter)
}

/// The file `<device>/ports/<port>/hw_counters/<counter>` is file `k` of port entry `j` of device
/// entry `i`: it is called so, and nothing listed before it in the same directory is.
pub open spec fn is_file(
    sysfs: SysfsSnapshot,
    i: int,
    j: int,
    k: int,
    device: Seq<char>,
    port: Seq<char>,
    counter: Seq<char>,
) -> bool {
    &&& path_called(sysfs, i, j, k, device, port, counter)
    &&& forall|earlier: int| 0 <= earlier < i ==> !device_called(sysfs, earlier, device)
    &&& forall|earlier: int| 0 <= earlier < j ==> !port_called(sysfs, i, earlier, port)
    &&& forall|earlier: int| 0 <= earlier < k ==> !file_called(sysfs, i, j, earlier, counter)
}

/// The directories of a counter file are those of the kernel:
/// `/sys/class/infiniband/<device>/ports/<port>/hw_counters/<counter>`.
pub proof fn law_directories_are_those_of_the_kernel()
    ensures
        INFINIBAND_SYSFS_PATH@ == "/sys/class/infiniband"@,
        PORTS_SUBDIR@ == "ports"@,
        HW_COUNTERS_DIR@ == "hw_counters"@,
{
}

/// EFA devices are present exactly where the directory has an entry, at any position, that can be
/// read.
pub proof fn law_devices_are_present_where_an_entry_is(sysfs: SysfsSnapshot)
    ensures
        devices_present(sysfs) <==> exists|i: int| #[trigger] device_at(sysfs, i) is Some,
{
    if devices_present(sysfs) {
        let devices = sysfs.devices->0;
        let i = choose|i: int| 0 <= i < devices.len() && #[trigger] devices[i] is Some;
        assert(device_at(sysfs, i) is Some);
    }
    if exists|i: int| #[trigger] device_at(sysfs, i) is Some {
        let i = choose|i: int| #[trigger] device_at(sysfs, i) is Some;
        let devices = sysfs.devices->0;
        assert(devices[i] is Some);
    }
}

/// SRD counters are supported exactly where some port of some device has a counter file called
/// `retrans_bytes`, whatever the file holds.
pub proof fn law_srd_is_supported_where_retrans_bytes_is(sysfs: SysfsSnapshot)
    ensures
        srd_supported(sysfs) <==> exists|i: int, j: int, k: int|
            file_called(sysfs, i, j, k, "retrans_bytes"@),
{
    let name = counter_name(17);
    assert(name == "retrans_bytes"@) by {
        reveal_strlit("efa_retrans_bytes");
        reveal_strlit("retrans_bytes");
        law_metric_names_have_efa_prefix(17);
        assert(metric(17).0 == "efa_retrans_bytes"@);
        assert(name =~= metric(17).0.skip(4));
        assert(name =~= "retrans_bytes"@);
    }
    if srd_supported(sysfs) {
        let devices = sysfs.devices->0;
        let i = choose|i: int|
            0 <= i < devices.len() && device_has_counter(#[trigger] devices[i], name);
        let ports = devices[i]->0.ports->0;
        let j = choose|j: int| 0 <= j < ports.len() && port_has_counter(#[trigger] ports[j], name);
        let counters = ports[j]->0.counters;
        let k = choose|k: int| 0 <= k < counters.len() && (#[trigger] counters[k]).name@ == name;
        assert(file_called(sysfs, i, j, k, "retrans_bytes"@));
    }
    if exists|i: int, j: int, k: int| file_called(sysfs, i, j, k, "retrans_bytes"@) {
        let (i, j, k) = choose|i: int, j: int, k: int|
            file_called(sysfs, i, j, k, "retrans_bytes"@);
        let devices = sysfs.devices->0;
        let ports = devices[i]->0.ports->0;
        let counters = ports[j]->0.counters;
        assert(counters[k].name@ == name);
        assert(port_has_counter(ports[j], name));
        assert(device_has_counter(devices[i], name));
    }
}

/// Whether SRD counters are supported depends on the names of the counter files alone, and not on
/// what they hold.
pub proof fn law_srd_support_ignores_contents(sysfs: SysfsSnapshot, other: SysfsSnapshot)
    requires
        forall|i: int, j: int, k: int, name: Seq<char>|
            file_called(sysfs, i, j, k, name) <==> file_called(other, i, j, k, name),
    ensures
        srd_supported(sysfs) == srd_supported(other),
{
    law_srd_is_supported_where_retrans_bytes_is(sysfs);
    law_srd_is_supported_where_retrans_bytes_is(other);
}

/// Port entry `j` of device entry `i` is the port `port` of `device`, with a counter directory.
pub open spec fn is_port(
    sysfs: SysfsSnapshot,
    i: int,
    j: int,
    device: Seq<char>,
    port: Seq<char>,
) -> bool {
    &&& device_called(sysfs, i, device)
    &&& port_called(sysfs, i, j, port)
    &&& port_at(sysfs, i, j)->0.has_counters
}

proof fn lemma_flat_map_contains<A, B>(s: Seq<A>, f: spec_fn(A) -> Seq<B>, x: B)
    ensures
        s.flat_map(f).contains(x) <==> exists|i: int|
            0 <= i < s.len() && f(#[trigger] s[i]).contains(x),
    decreases s.len(),
{
    if s.len() == 0 {
        assert(s.map_values(f) =~= seq![]);
        assert(s.flat_map(f) =~= seq![]);
    } else {
        let rest = s.drop_last();
        let all = s.flat_map(f);
        let front = rest.flat_map(f);
        let back = f(s.last());
        lemma_flat_map_contains(rest, f, x);
        rest.lemma_flat_map_push(f, s.last());
        assert(rest.push(s.last()) =~= s);
        assert(all == front + back);
        if all.contains(x) {
            let n = choose|n: int| 0 <= n < all.len() && all[n] == x;
            if n < front.len() {
                assert(front[n] == x);
                let i = choose|i: int| 0 <= i < rest.len() && f(#[trigger] rest[i]).contains(x);
                assert(f(s[i]).contains(x));
            } else {
                assert(back[n - front.len()] == x);
                assert(f(s[s.len() - 1]).contains(x));
            }
        }
        if exists|i: int| 0 <= i < s.len() && f(#[trigger] s[i]).contains(x) {
            let i = choose|i: int| 0 <= i < s.len() && f(#[trigger] s[i]).contains(x);
            if i < rest.len() {
                assert(f(rest[i]).contains(x));
                let n = choose|n: int| 0 <= n < front.len() && front[n] == x;
                assert(all[n] == x);
            } else {
                let n = choose|n: int| 0 <= n < back.len() && back[n] == x;
                assert(all[front.len() + n] == x);
            }
        }
    }
}

proof fn lemma_filter_map_contains<A, B>(s: Seq<A>, f: spec_fn(A) -> Option<B>, x: B)
    ensures
        s.filter_map(f).contains(x) <==> exists|i: int|
            0 <= i < s.len() && f(#[trigger] s[i]) == Some(x),
    decreases s.len(),
{
    if s.len() > 0 {
        let rest = s.drop_last();
        let all = s.filter_map(f);
        let front = rest.filter_map(f);
        lemma_filter_map_contains(rest, f, x);
        if all.contains(x) {
            let n = choose|n: int| 0 <= n < all.len() && all[n] == x;
            if n < front.len() {
                assert(front[n] == x);
                let i = choose|i: int| 0 <= i < rest.len() && f(#[trigger] rest[i]) == Some(x);
                assert(f(s[i]) == Some(x));
            } else {
                assert(f(s[s.len() - 1]) == Some(x));
            }
        }
        if exists|i: int| 0 <= i < s.len() && f(#[trigger] s[i]) == Some(x) {
            let i = choose|i: int| 0 <= i < s.len() && f(#[trigger] s[i]) == Some(x);
            if i < rest.len() {
                assert(f(rest[i]) == Some(x));
                let n = choose|n: int| 0 <= n < front.len() && front[n] == x;
                assert(all[n] == x);
            } else {
                assert(all[front.len() as int] == x);
            }
        }
    }
}

/// A port is found exactly where some entry of the directory, at any position, is called by its
/// device and has a readable port directory with an entry, at any position, that is called by the
/// port and has a counter directory.
pub proof fn law_port_is_found_where_its_entry_is(
    sysfs: SysfsSnapshot,
    device: Seq<char>,
    port: Seq<char>,
)
    ensures
        device_ports(sysfs).contains((device, port)) <==> exists|i: int, j: int|
            is_port(sysfs, i, j, device, port),
{
    let pair = (device, port);
    let per_device = |entry: Option<DeviceEntry>| port_pairs(entry);
    if sysfs.devices is Some {
        lemma_flat_map_contains(sysfs.devices->0@, per_device, pair);
    }
    if device_ports(sysfs).contains(pair) {
        let devices = sysfs.devices->0@;
        let i = choose|i: int|
            0 <= i < devices.len() && per_device(#[trigger] devices[i]).contains(pair);
        let name = devices[i]->0.name->0@;
        let ports = devices[i]->0.ports->0@;
        let per_port = |entry: Option<PortEntry>| port_pair(name, entry);
        lemma_filter_map_contains(ports, per_port, pair);
        let j = choose|j: int| 0 <= j < ports.len() && per_port(#[trigger] ports[j]) == Some(pair);
        assert(is_port(sysfs, i, j, device, port));
    }
    if exists|i: int, j: int| is_port(sysfs, i, j, device, port) {
        let (i, j) = choose|i: int, j: int| is_port(sysfs, i, j, device, port);
        let devices = sysfs.devices->0@;
        let name = devices[i]->0.name->0@;
        let ports = devices[i]->0.ports->0@;
        let per_port = |entry: Option<PortEntry>| port_pair(name, entry);
        lemma_filter_map_contains(ports, per_port, pair);
        assert(per_port(ports[j]) == Some(pair));
        assert(per_device(devices[i]).contains(pair));
    }
}

/// The ports found in a directory that lists one list of entries after another are those of the
/// first list followed by those of the second.
pub proof fn law_ports_of_joined_device_lists(
    first: SysfsSnapshot,
    second: SysfsSnapshot,
    joined: SysfsSnapshot,
)
    requires
        first.devices is Some,
        second.devices is Some,
        joined.devices is Some,
        joined.devices->0@ == first.devices->0@ + second.devices->0@,
    ensures
        device_ports(joined) == device_ports(first) + device_ports(second),
{
    let a = first.devices->0@;
    let b = second.devices->0@;
    let per_device = |entry: Option<DeviceEntry>| port_pairs(entry);
    vstd::seq_lib::lemma_flatten_concat(a.map_values(per_device), b.map_values(per_device));
    assert((a + b).map_values(per_device) =~= a.map_values(per_device) + b.map_values(per_device));
}

/// The directory has one entry, a device called `name` whose port directory lists `ports`.
pub open spec fn one_device(
    sysfs: SysfsSnapshot,
    name: Seq<char>,
    ports: Seq<Option<PortEntry>>,
) -> bool {
    &&& sysfs.devices is Some
    &&& sysfs.devices->0@.len() == 1
    &&& device_called(sysfs, 0, name)
    &&& device_at(sysfs, 0)->0.ports is Some
    &&& device_at(sysfs, 0)->0.ports->0@ == ports
}

proof fn lemma_one_device(sysfs: SysfsSnapshot, name: Seq<char>, ports: Seq<Option<PortEntry>>)
    requires
        one_device(sysfs, name, ports),
    ensures
        device_ports(sysfs) == ports.filter_map(|entry: Option<PortEntry>| port_pair(name, entry)),
{
    let per_device = |entry: Option<DeviceEntry>| port_pairs(entry);
    sysfs.devices->0@.lemma_flat_map_singleton(per_device);
}

proof fn lemma_filter_map_concat<A, B>(a: Seq<A>, b: Seq<A>, f: spec_fn(A) -> Option<B>)
    ensures
        (a + b).filter_map(f) == a.filter_map(f) + b.filter_map(f),
    decreases b.len(),
{
    if b.len() == 0 {
        assert(a + b =~= a);
        assert(a.filter_map(f) + b.filter_map(f) =~= a.filter_map(f));
    } else {
        lemma_filter_map_concat(a, b.drop_last(), f);
        assert((a + b).drop_last() =~= a + b.drop_last());
        assert((a + b).filter_map(f) =~= a.filter_map(f) + b.filter_map(f));
    }
}

/// The ports found of a device that lists one list of ports after another are those of the first
/// list followed by those of the second.
pub proof fn law_ports_of_joined_port_lists(
    name: Seq<char>,
    ports: Seq<Option<PortEntry>>,
    more: Seq<Option<PortEntry>>,
    first: SysfsSnapshot,
    second: SysfsSnapshot,
    joined: SysfsSnapshot,
)
    requires
        one_device(first, name, ports),
        one_device(second, name, more),
        one_device(joined, name, ports + more),
    ensures
        device_ports(joined) == device_ports(first) + device_ports(second),
{
    lemma_one_device(first, name, ports);
    lemma_one_device(second, name, more);
    lemma_one_device(joined, name, ports + more);
    lemma_filter_map_concat(ports, more, |entry: Option<PortEntry>| port_pair(name, entry));
}

/// One port of one device is found once where it has a counter directory, and not at all where it
/// has none.
pub proof fn law_port_of_single_entry(
    name: Seq<char>,
    port: PortEntry,
    sysfs: SysfsSnapshot,
)
    requires
        one_device(sysfs, name, seq![Some(port)]),
        port.name is Some,
    ensures
        port.has_counters ==> device_ports(sysfs) == seq![(name, port.name->0@)],
        !port.has_counters ==> device_ports(sysfs).len() == 0,
{
    let entry = Some(port);
    lemma_one_device(sysfs, name, seq![entry]);
    Seq::lemma_filter_map_singleton(
        entry,
        |e: Option<PortEntry>| port_pair(name, e),
    );
}

/// Every port that is found stands for an entry, so that nothing is found where the directory
/// cannot be read or names no port.
pub proof fn law_found_port_has_an_entry(sysfs: SysfsSnapshot, n: int) -> (entry: (int, int))
    requires
        0 <= n < device_ports(sysfs).len(),
    ensures
        is_port(
            sysfs,
            entry.0,
            entry.1,
            device_ports(sysfs)[n].0,
            device_ports(sysfs)[n].1,
        ),
{
    let pair = device_ports(sysfs)[n];
    law_port_is_found_where_its_entry_is(sysfs, pair.0, pair.1);
    assert(device_ports(sysfs).contains(pair));
    choose|i: int, j: int| is_port(sysfs, i, j, pair.0, pair.1)
}

proof fn lemma_find_device(devices: Seq<Option<DeviceEntry>>, name: Seq<char>, i: int)
    requires
        0 <= i < devices.len(),
        devices[i] is Some && devices[i]->0.name is Some && devices[i]->0.name->0@ == name,
        forall|e: int|
            0 <= e < i ==> !((#[trigger] devices[e]) is Some && devices[e]->0.name is Some
                && devices[e]->0.name->0@ == name),
    ensures
        find_device(devices, name) == devices[i],
    decreases i,
{
    if i > 0 {
        assert(!(devices[0] is Some && devices[0]->0.name is Some && devices[0]->0.name->0@
            == name));
        assert(devices.drop_first()[i - 1] == devices[i]);
        assert forall|e: int| 0 <= e < i - 1 implies !((#[trigger] devices.drop_first()[e]) is Some
            && devices.drop_first()[e]->0.name is Some && devices.drop_first()[e]->0.name->0@
            == name) by {
            assert(devices.drop_first()[e] == devices[e + 1]);
        }
        lemma_find_device(devices.drop_first(), name, i - 1);
    }
}

proof fn lemma_found_device(devices: Seq<Option<DeviceEntry>>, name: Seq<char>) -> (i: int)
    requires
        find_device(devices, name) is Some,
    ensures
        0 <= i < devices.len(),
        devices[i] is Some && devices[i]->0.name is Some && devices[i]->0.name->0@ == name,
        devices[i] == find_device(devices, name),
    decreases devices.len(),
{
    if devices[0] is Some && devices[0]->0.name is Some && devices[0]->0.name->0@ == name {
        0
    } else {
        lemma_found_device(devices.drop_first(), name) + 1
    }
}

proof fn lemma_find_port(ports: Seq<Option<PortEntry>>, name: Seq<char>, i: int)
    requires
        0 <= i < ports.len(),
        ports[i] is Some && ports[i]->0.name is Some && ports[i]->0.name->0@ == name,
        forall|e: int|
            0 <= e < i ==> !((#[trigger] ports[e]) is Some && ports[e]->0.name is Some
                && ports[e]->0.name->0@ == name),
    ensures
        find_port(ports, name) == ports[i],
    decreases i,
{
    if i > 0 {
        assert(!(ports[0] is Some && ports[0]->0.name is Some && ports[0]->0.name->0@ == name));
        assert(ports.drop_first()[i - 1] == ports[i]);
        assert forall|e: int| 0 <= e < i - 1 implies !((#[trigger] ports.drop_first()[e]) is Some
            && ports.drop_first()[e]->0.name is Some && ports.drop_first()[e]->0.name->0@
            == name) by {
            assert(ports.drop_first()[e] == ports[e + 1]);
        }
        lemma_find_port(ports.drop_first(), name, i - 1);
    }
}

proof fn lemma_found_port(ports: Seq<Option<PortEntry>>, name: Seq<char>) -> (i: int)
    requires
        find_port(ports, name) is Some,
    ensures
        0 <= i < ports.len(),
        ports[i] is Some && ports[i]->0.name is Some && ports[i]->0.name->0@ == name,
        ports[i] == find_port(ports, name),
    decreases ports.len(),
{
    if ports[0] is Some && ports[0]->0.name is Some && ports[0]->0.name->0@ == name {
        0
    } else {
        lemma_found_port(ports.drop_first(), name) + 1
    }
}

proof fn lemma_find_counter(counters: Seq<CounterFile>, name: Seq<char>, i: int)
    requires
        0 <= i < counters.len(),
        counters[i].name@ == name,
        forall|e: int| 0 <= e < i ==> (#[trigger] counters[e]).name@ != name,
    ensures
        find_counter(counters, name) == Some(counters[i]),
    decreases i,
{
    if i > 0 {
        assert(counters[0].name@ != name);
        assert(counters.drop_first()[i - 1] == counters[i]);
        assert forall|e: int| 0 <= e < i - 1 implies (#[trigger] counters.drop_first()[e]).name@
            != name by {
            assert(counters.drop_first()[e] == counters[e + 1]);
        }
        lemma_find_counter(counters.drop_first(), name, i - 1);
    }
}

proof fn lemma_found_counter_file(counters: Seq<CounterFile>, name: Seq<char>) -> (i: int)
    requires
        find_counter(counters, name) is Some,
    ensures
        0 <= i < counters.len(),
        counters[i].name@ == name,
        Some(counters[i]) == find_counter(counters, name),
    decreases counters.len(),
{
    if counters[0].name@ == name {
        0
    } else {
        lemma_found_counter_file(counters.drop_first(), name) + 1
    }
}

/// The text of a counter file is what the file holds.
proof fn lemma_content_of_file(
    sysfs: SysfsSnapshot,
    i: int,
    j: int,
    k: int,
    device: Seq<char>,
    port: Seq<char>,
    counter: Seq<char>,
)
    requires
        is_file(sysfs, i, j, k, device, port, counter),
    ensures
        counter_content(sysfs, device, port, counter) == match file_at(sysfs, i, j, k)->0.content {
            Some(content) => Some(content@),
            None => None,
        },
{
    let devices = sysfs.devices->0@;
    assert forall|e: int| 0 <= e < i implies !((#[trigger] devices[e]) is Some
        && devices[e]->0.name is Some && devices[e]->0.name->0@ == device) by {
        assert(!device_called(sysfs, e, device));
    }
    lemma_find_device(devices, device, i);
    let ports = devices[i]->0.ports->0@;
    assert forall|e: int| 0 <= e < j implies !((#[trigger] ports[e]) is Some
        && ports[e]->0.name is Some && ports[e]->0.name->0@ == port) by {
        assert(!port_called(sysfs, i, e, port));
    }
    lemma_find_port(ports, port, j);
    let counters = ports[j]->0.counters@;
    assert forall|e: int| 0 <= e < k implies (#[trigger] counters[e]).name@ != counter by {
        assert(!file_called(sysfs, i, j, e, counter));
    }
    lemma_find_counter(counters, counter, k);
}

/// A counter reads as the number that its own file holds, and as none where the file holds none or
/// cannot be read.
pub proof fn law_counter_reads_its_own_file(
    sysfs: SysfsSnapshot,
    i: int,
    j: int,
    k: int,
    device: Seq<char>,
    port: Seq<char>,
    counter: Seq<char>,
    n: u64,
)
    requires
        is_file(sysfs, i, j, k, device, port, counter),
    ensures
        counter_reading(sysfs, device, port, counter) == Some(n) <==> {
            &&& file_at(sysfs, i, j, k)->0.content is Some
            &&& holds_number(file_at(sysfs, i, j, k)->0.content->0@, n as nat)
        },
{
    lemma_content_of_file(sysfs, i, j, k, device, port, counter);
    if file_at(sysfs, i, j, k)->0.content is Some {
        law_counter_files_hold_numbers(file_at(sysfs, i, j, k)->0.content->0@, n);
    }
}

/// A counter whose file is not there reads as none.
pub proof fn law_counter_without_file_is_not_read(
    sysfs: SysfsSnapshot,
    device: Seq<char>,
    port: Seq<char>,
    counter: Seq<char>,
)
    requires
        forall|i: int, j: int, k: int| !path_called(sysfs, i, j, k, device, port, counter),
    ensures
        counter_reading(sysfs, device, port, counter) is None,
{
    if counter_content(sysfs, device, port, counter) is Some {
        let devices = sysfs.devices->0@;
        let i = lemma_found_device(devices, device);
        let ports = devices[i]->0.ports->0@;
        let j = lemma_found_port(ports, port);
        let k = lemma_found_counter_file(ports[j]->0.counters@, counter);
        assert(path_called(sysfs, i, j, k, device, port, counter));
    }
}

/// What a counter reads as depends on its own file alone: whatever else two readings of the
/// directory found, where that file holds the same in both, the counter reads the same.
pub proof fn law_counter_ignores_other_files(
    sysfs: SysfsSnapshot,
    at: (int, int, int),
    other: SysfsSnapshot,
    other_at: (int, int, int),
    device: Seq<char>,
    port: Seq<char>,
    counter: Seq<char>,
)
    requires
        is_file(sysfs, at.0, at.1, at.2, device, port, counter),
        is_file(other, other_at.0, other_at.1, other_at.2, device, port, counter),
        file_at(sysfs, at.0, at.1, at.2)->0.content is Some,
        file_at(other, other_at.0, other_at.1, other_at.2)->0.content is Some,
        file_at(sysfs, at.0, at.1, at.2)->0.content->0@ == file_at(
            other,
            other_at.0,
            other_at.1,
            other_at.2,
        )->0.content->0@,
    ensures
        counter_reading(sysfs, device, port, counter) == counter_reading(
            other,
            device,
            port,
            counter,
        ),
{
    lemma_content_of_file(sysfs, at.0, at.1, at.2, device, port, counter);
    lemma_content_of_file(other, other_at.0, other_at.1, other_at.2, device, port, counter);
}

} // verus!
