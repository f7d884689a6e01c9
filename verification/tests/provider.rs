use efa_metrics::counter::compute_delta;
use efa_metrics::metrics::{strip_efa_prefix, SRD_METRICS, STANDARD_METRICS};
use efa_metrics::platform::{ComputePlatform, EfaMetric};
use efa_metrics::pods::{EfaDeviceToPodMap, EfaPodInfo};
use efa_metrics::provider::EfaMetricsProvider;
use efa_metrics::sysfs::{CounterFile, DeviceEntry, PortEntry, SysfsSnapshot};
use prometheus::Registry;

const TEST_PORT: &str = "1";

fn empty_sysfs() -> SysfsSnapshot {
    SysfsSnapshot {
        devices: Some(Vec::new()),
    }
}

fn counter_files(standard: &str, srd: Option<&str>) -> Vec<CounterFile> {
    let mut files = Vec::new();
    for (metric_name, _) in STANDARD_METRICS {
        files.push(CounterFile {
            name: strip_efa_prefix(metric_name).to_string(),
            content: Some(standard.to_string()),
        });
    }
    if let Some(content) = srd {
        for (metric_name, _) in SRD_METRICS {
            files.push(CounterFile {
                name: strip_efa_prefix(metric_name).to_string(),
                content: Some(content.to_string()),
            });
        }
    }
    files
}

fn port_entry(name: &str, standard: &str, srd: Option<&str>) -> Option<PortEntry> {
    Some(PortEntry {
        name: Some(name.to_string()),
        has_counters: true,
        counters: counter_files(standard, srd),
    })
}

fn add_device(sysfs: &mut SysfsSnapshot, device: &str, ports: Vec<Option<PortEntry>>) {
    sysfs.devices.as_mut().unwrap().push(Some(DeviceEntry {
        name: Some(device.to_string()),
        ports: Some(ports),
    }));
}

fn create_mock_sysfs(with_srd: bool) -> SysfsSnapshot {
    let mut sysfs = empty_sysfs();
    let srd = if with_srd { Some("7\n") } else { None };
    add_device(
        &mut sysfs,
        "rdmap0s31",
        vec![port_entry(TEST_PORT, "42\n", srd)],
    );
    sysfs
}

fn create_provider_with_mock(
    sysfs: &SysfsSnapshot,
    platform: ComputePlatform,
) -> EfaMetricsProvider {
    EfaMetricsProvider::new(
        &platform,
        "i-1234567890abcdef0".to_string(),
        Some("test-node".to_string()),
        sysfs,
    )
}

fn device_mut<'a>(sysfs: &'a mut SysfsSnapshot, device: &str) -> &'a mut DeviceEntry {
    sysfs
        .devices
        .as_mut()
        .unwrap()
        .iter_mut()
        .flatten()
        .find(|d| d.name.as_deref() == Some(device))
        .unwrap()
}

fn write_counters(
    sysfs: &mut SysfsSnapshot,
    device: &str,
    standard_val: u64,
    srd_val: Option<u64>,
) {
    let standard = format!("{}\n", standard_val);
    let srd = srd_val.map(|val| format!("{}\n", val));
    device_mut(sysfs, device).ports =
        Some(vec![port_entry(TEST_PORT, &standard, srd.as_deref())]);
}

fn remove_device(sysfs: &mut SysfsSnapshot, device: &str) {
    sysfs
        .devices
        .as_mut()
        .unwrap()
        .retain(|d| d.as_ref().unwrap().name.as_deref() != Some(device));
}

fn pod(pod_name: &str, pod_namespace: &str) -> EfaPodInfo {
    EfaPodInfo {
        pod_name: pod_name.to_string(),
        pod_namespace: pod_namespace.to_string(),
    }
}

#[test]
fn test_efa_devices_present_with_devices() {
    let sysfs = create_mock_sysfs(false);
    assert!(EfaMetricsProvider::efa_devices_present(&sysfs));
}

#[test]
fn test_efa_devices_present_empty_dir() {
    let sysfs = empty_sysfs();
    assert!(!EfaMetricsProvider::efa_devices_present(&sysfs));
}

#[test]
fn test_efa_devices_present_no_dir() {
    let sysfs = SysfsSnapshot { devices: None };
    assert!(!EfaMetricsProvider::efa_devices_present(&sysfs));
}

#[test]
fn test_detect_srd_support_present() {
    let sysfs = create_mock_sysfs(true);
    assert!(EfaMetricsProvider::detect_srd_support(&sysfs));
}

#[test]
fn test_detect_srd_support_absent() {
    let sysfs = create_mock_sysfs(false);
    assert!(!EfaMetricsProvider::detect_srd_support(&sysfs));
}

#[test]
fn test_discover_device_ports() {
    let sysfs = create_mock_sysfs(false);
    let device_ports = EfaMetricsProvider::discover_device_ports(&sysfs);
    assert_eq!(
        device_ports,
        vec![("rdmap0s31".to_string(), "1".to_string())]
    );
}

#[test]
fn test_read_counter_success() {
    let sysfs = create_mock_sysfs(false);
    let value = EfaMetricsProvider::read_counter(&sysfs, "rdmap0s31", TEST_PORT, "tx_bytes");
    assert_eq!(value, Some(42));
}

#[test]
fn test_read_counter_missing_file() {
    let sysfs = create_mock_sysfs(false);
    let value =
        EfaMetricsProvider::read_counter(&sysfs, "rdmap0s31", TEST_PORT, "nonexistent_metric");
    assert_eq!(value, None);
}

#[test]
fn test_register_standard_metrics_only() {
    let sysfs = create_mock_sysfs(false);
    let mut provider = create_provider_with_mock(&sysfs, ComputePlatform::Ec2Plain);
    let mut registry = Registry::new();
    provider.register_to(&mut registry).unwrap();
    let _ = provider.update_metrics(&sysfs, None);

    let metric_families = registry.gather();
    assert_eq!(metric_families.len(), STANDARD_METRICS.len());
}

#[test]
fn test_register_with_srd_metrics() {
    let sysfs = create_mock_sysfs(true);
    let mut provider = create_provider_with_mock(&sysfs, ComputePlatform::Ec2Plain);
    let mut registry = Registry::new();
    provider.register_to(&mut registry).unwrap();
    let _ = provider.update_metrics(&sysfs, None);

    let metric_families = registry.gather();
    assert_eq!(
        metric_families.len(),
        STANDARD_METRICS.len() + SRD_METRICS.len()
    );
}

#[test]
fn test_first_scrape_returns_zero_delta() {
    let sysfs = create_mock_sysfs(false);
    let mut provider = create_provider_with_mock(&sysfs, ComputePlatform::Ec2Plain);
    let mut registry = Registry::new();
    provider.register_to(&mut registry).unwrap();

    let result = provider.update_metrics(&sysfs, None);
    assert!(result.is_ok());

    let metric_families = registry.gather();
    for mf in &metric_families {
        for metric in mf.get_metric() {
            assert_eq!(
                metric.get_gauge().value(),
                0.0,
                "First scrape should return 0 delta for {}",
                mf.name()
            );
        }
    }
}

#[test]
fn test_delta_after_counter_increment() {
    let mut sysfs = create_mock_sysfs(false);
    let mut provider = create_provider_with_mock(&sysfs, ComputePlatform::Ec2Plain);
    let mut registry = Registry::new();
    provider.register_to(&mut registry).unwrap();

    let _ = provider.update_metrics(&sysfs, None);

    write_counters(&mut sysfs, "rdmap0s31", 100, None);

    let _ = provider.update_metrics(&sysfs, None);
    let metric_families = registry.gather();
    for mf in &metric_families {
        for metric in mf.get_metric() {
            assert_eq!(
                metric.get_gauge().value(),
                58.0,
                "Delta should be 58 for {}",
                mf.name()
            );
        }
    }
}

#[test]
fn test_delta_returns_zero_when_idle() {
    let sysfs = create_mock_sysfs(false);
    let mut provider = create_provider_with_mock(&sysfs, ComputePlatform::Ec2Plain);
    let mut registry = Registry::new();
    provider.register_to(&mut registry).unwrap();

    let _ = provider.update_metrics(&sysfs, None);
    let _ = provider.update_metrics(&sysfs, None);

    let metric_families = registry.gather();
    for mf in &metric_families {
        for metric in mf.get_metric() {
            assert_eq!(metric.get_gauge().value(), 0.0);
        }
    }
}

#[test]
fn test_delta_with_counter_reset_returns_current() {
    let mut sysfs = create_mock_sysfs(false);
    let mut provider = create_provider_with_mock(&sysfs, ComputePlatform::Ec2Plain);
    let mut registry = Registry::new();
    provider.register_to(&mut registry).unwrap();

    let _ = provider.update_metrics(&sysfs, None);

    write_counters(&mut sysfs, "rdmap0s31", 1000, None);
    let _ = provider.update_metrics(&sysfs, None);

    write_counters(&mut sysfs, "rdmap0s31", 5, None);
    let _ = provider.update_metrics(&sysfs, None);

    let metric_families = registry.gather();
    for mf in &metric_families {
        for metric in mf.get_metric() {
            assert_eq!(
                metric.get_gauge().value(),
                5.0,
                "Counter reset should return current value for {}",
                mf.name()
            );
        }
    }
}

#[test]
fn test_delta_with_srd_metrics() {
    let mut sysfs = create_mock_sysfs(true);
    let mut provider = create_provider_with_mock(&sysfs, ComputePlatform::Ec2Plain);
    let mut registry = Registry::new();
    provider.register_to(&mut registry).unwrap();

    let _ = provider.update_metrics(&sysfs, None);

    write_counters(&mut sysfs, "rdmap0s31", 52, Some(17));
    let _ = provider.update_metrics(&sysfs, None);

    let metric_families = registry.gather();
    let srd_names: Vec<&str> = SRD_METRICS.iter().map(|(name, _)| *name).collect();

    for mf in &metric_families {
        for metric in mf.get_metric() {
            assert_eq!(
                metric.get_gauge().value(),
                10.0,
                "Delta should be 10 for {}",
                mf.name()
            );
        }
    }

    let reported_names: Vec<&str> = metric_families.iter().map(|mf| mf.name()).collect();
    for srd_name in &srd_names {
        assert!(reported_names.contains(srd_name));
    }
}

#[test]
fn test_labels_ec2_plain() {
    let labels = EfaMetric::get_labels(&ComputePlatform::Ec2Plain);
    assert_eq!(labels, &["instance_id", "device", "port"]);
}

#[test]
fn test_labels_k8s() {
    for platform in &[ComputePlatform::Ec2K8sEks, ComputePlatform::Ec2K8sVanilla] {
        let labels = EfaMetric::get_labels(platform);
        assert_eq!(
            labels,
            &["instance_id", "device", "port", "node", "pod", "namespace"]
        );
    }
}

#[test]
fn test_label_values_ec2() {
    let sysfs = create_mock_sysfs(false);
    let provider = create_provider_with_mock(&sysfs, ComputePlatform::Ec2Plain);
    let values = provider.label_values("rdmap0s31", "1", None);
    assert_eq!(values, vec!["i-1234567890abcdef0", "rdmap0s31", "1"]);
}

#[test]
fn test_label_values_k8s() {
    let sysfs = create_mock_sysfs(false);
    let provider = create_provider_with_mock(&sysfs, ComputePlatform::Ec2K8sEks);
    let values = provider.label_values("rdmap0s31", "1", None);
    assert_eq!(
        values,
        vec![
            "i-1234567890abcdef0",
            "rdmap0s31",
            "1",
            "test-node",
            "unknown",
            "unknown"
        ]
    );
}

#[test]
fn test_multiple_devices_delta() {
    let mut sysfs = empty_sysfs();
    add_device(&mut sysfs, "rdmap0s31", vec![port_entry(TEST_PORT, "100\n", None)]);
    add_device(&mut sysfs, "rdmap1s32", vec![port_entry(TEST_PORT, "200\n", None)]);

    let mut provider = create_provider_with_mock(&sysfs, ComputePlatform::Ec2Plain);
    let mut registry = Registry::new();
    provider.register_to(&mut registry).unwrap();

    let _ = provider.update_metrics(&sysfs, None);

    write_counters(&mut sysfs, "rdmap0s31", 110, None);
    write_counters(&mut sysfs, "rdmap1s32", 250, None);

    let result = provider.update_metrics(&sysfs, None);
    assert!(result.is_ok());

    let metric_families = registry.gather();
    for mf in &metric_families {
        assert_eq!(mf.get_metric().len(), 2, "Should have 2 devices");
        let values: Vec<f64> = mf
            .get_metric()
            .iter()
            .map(|m| m.get_gauge().value())
            .collect();
        let mut sorted = values.clone();
        sorted.sort_by(|a, b| a.partial_cmp(b).unwrap());
        assert_eq!(sorted, vec![10.0, 50.0]);
    }
}

#[test]
fn test_multiple_ports_on_single_device() {
    let mut sysfs = empty_sysfs();
    add_device(
        &mut sysfs,
        "rdmap0s31",
        vec![port_entry("1", "100\n", None), port_entry("2", "300\n", None)],
    );

    let mut provider = create_provider_with_mock(&sysfs, ComputePlatform::Ec2Plain);
    let mut registry = Registry::new();
    provider.register_to(&mut registry).unwrap();

    let _ = provider.update_metrics(&sysfs, None);

    // Increment port1 by 20, port2 by 40.
    device_mut(&mut sysfs, "rdmap0s31").ports =
        Some(vec![port_entry("1", "120\n", None), port_entry("2", "340\n", None)]);

    let _ = provider.update_metrics(&sysfs, None);

    let metric_families = registry.gather();
    for mf in &metric_families {
        assert_eq!(mf.get_metric().len(), 2, "Should have 2 port entries");
        let values: Vec<f64> = mf
            .get_metric()
            .iter()
            .map(|m| m.get_gauge().value())
            .collect();
        let mut sorted = values.clone();
        sorted.sort_by(|a, b| a.partial_cmp(b).unwrap());
        assert_eq!(sorted, vec![20.0, 40.0]);
    }
}

#[test]
fn test_metric_names_have_efa_prefix() {
    let sysfs = create_mock_sysfs(true);
    let mut provider = create_provider_with_mock(&sysfs, ComputePlatform::Ec2Plain);
    let mut registry = Registry::new();
    provider.register_to(&mut registry).unwrap();

    let _ = provider.update_metrics(&sysfs, None);
    let metric_families = registry.gather();

    for mf in &metric_families {
        assert!(
            mf.name().starts_with("efa_"),
            "Metric name '{}' does not start with 'efa_'",
            mf.name()
        );
    }
}

#[test]
fn test_compute_delta_normal() {
    assert_eq!(compute_delta(100, 42), 58);
}

#[test]
fn test_compute_delta_same_value() {
    assert_eq!(compute_delta(42, 42), 0);
}

#[test]
fn test_compute_delta_reset_returns_current() {
    assert_eq!(compute_delta(5, 1000), 5);
}

#[test]
fn test_stale_device_cleanup() {
    let mut sysfs = empty_sysfs();
    add_device(&mut sysfs, "rdmap0s31", vec![port_entry(TEST_PORT, "100\n", None)]);
    add_device(&mut sysfs, "rdmap1s32", vec![port_entry(TEST_PORT, "200\n", None)]);

    let mut provider = create_provider_with_mock(&sysfs, ComputePlatform::Ec2Plain);
    assert_eq!(provider.previous_values().len(), 2);

    // Remove device2 from sysfs.
    remove_device(&mut sysfs, "rdmap1s32");

    let _ = provider.update_metrics(&sysfs, None);

    assert_eq!(provider.previous_values().len(), 1);
    assert!(provider.previous_values().contains_key("rdmap0s31/1"));
    assert!(!provider.previous_values().contains_key("rdmap1s32/1"));
}

#[test]
fn test_label_values_k8s_with_pod_map() {
    let sysfs = create_mock_sysfs(false);
    let mut device_map = EfaDeviceToPodMap::new();
    device_map.insert("rdmap0s31".to_string(), pod("training-job-worker-0", "ml"));

    let provider = create_provider_with_mock(&sysfs, ComputePlatform::Ec2K8sEks);
    let values = provider.label_values("rdmap0s31", "1", Some(&device_map));
    assert_eq!(
        values,
        vec![
            "i-1234567890abcdef0",
            "rdmap0s31",
            "1",
            "test-node",
            "training-job-worker-0",
            "ml"
        ]
    );
}

#[test]
fn test_label_values_k8s_with_pod_map_device_not_found() {
    let sysfs = create_mock_sysfs(false);
    let device_map = EfaDeviceToPodMap::new();

    let provider = create_provider_with_mock(&sysfs, ComputePlatform::Ec2K8sEks);
    let values = provider.label_values("rdmap0s31", "1", Some(&device_map));
    assert_eq!(
        values,
        vec![
            "i-1234567890abcdef0",
            "rdmap0s31",
            "1",
            "test-node",
            "unknown",
            "unknown"
        ]
    );
}

#[test]
fn test_label_values_k8s_without_pod_map() {
    let sysfs = create_mock_sysfs(false);
    let provider = create_provider_with_mock(&sysfs, ComputePlatform::Ec2K8sEks);
    let values = provider.label_values("rdmap0s31", "1", None);
    assert_eq!(
        values,
        vec![
            "i-1234567890abcdef0",
            "rdmap0s31",
            "1",
            "test-node",
            "unknown",
            "unknown"
        ]
    );
}

#[test]
fn test_stale_series_removed_on_pod_change() {
    let mut sysfs = create_mock_sysfs(false);
    let mut pod_map = EfaDeviceToPodMap::new();

    let mut provider = create_provider_with_mock(&sysfs, ComputePlatform::Ec2K8sEks);
    let mut registry = Registry::new();
    provider.register_to(&mut registry).unwrap();

    // First scrape: pod is unknown
    write_counters(&mut sysfs, "rdmap0s31", 100, None);
    let _ = provider.update_metrics(&sysfs, Some(&pod_map));

    let families = registry.gather();
    for mf in &families {
        assert_eq!(
            mf.get_metric().len(),
            1,
            "Should have exactly 1 series for {}",
            mf.name()
        );
    }

    // Simulate pod assignment: watcher resolves device to a real pod
    pod_map.insert("rdmap0s31".to_string(), pod("efa-workload", "efa-test"));

    write_counters(&mut sysfs, "rdmap0s31", 200, None);
    let _ = provider.update_metrics(&sysfs, Some(&pod_map));

    // After pod change, the old "unknown" series should be removed.
    // Only the new series with "efa-workload" should remain.
    let families = registry.gather();
    for mf in &families {
        assert_eq!(
            mf.get_metric().len(),
            1,
            "Stale series not cleaned up for {}",
            mf.name()
        );
        let metric = &mf.get_metric()[0];
        let labels: Vec<(&str, &str)> = metric
            .get_label()
            .iter()
            .map(|l| (l.name(), l.value()))
            .collect();
        assert!(
            labels.contains(&("pod", "efa-workload")),
            "Expected pod=efa-workload in labels for {}, got {:?}",
            mf.name(),
            labels
        );
    }
}

#[test]
fn test_stale_series_removed_on_device_disappear() {
    let mut sysfs = empty_sysfs();
    add_device(&mut sysfs, "rdmap0s31", vec![port_entry(TEST_PORT, "100\n", None)]);
    add_device(&mut sysfs, "rdmap1s32", vec![port_entry(TEST_PORT, "200\n", None)]);

    let mut provider = create_provider_with_mock(&sysfs, ComputePlatform::Ec2Plain);
    let mut registry = Registry::new();
    provider.register_to(&mut registry).unwrap();

    // First scrape: both devices present
    write_counters(&mut sysfs, "rdmap0s31", 110, None);
    write_counters(&mut sysfs, "rdmap1s32", 250, None);
    let _ = provider.update_metrics(&sysfs, None);

    let families = registry.gather();
    for mf in &families {
        assert_eq!(mf.get_metric().len(), 2, "Should have 2 devices initially");
    }

    // Remove device2 from sysfs
    remove_device(&mut sysfs, "rdmap1s32");

    write_counters(&mut sysfs, "rdmap0s31", 120, None);
    let _ = provider.update_metrics(&sysfs, None);

    // After device disappears, its series should be removed
    let families = registry.gather();
    for mf in &families {
        assert_eq!(
            mf.get_metric().len(),
            1,
            "Stale device series not cleaned up for {}",
            mf.name()
        );
    }
}

#[test]
fn test_pod_reassignment_between_real_pods() {
    let mut sysfs = create_mock_sysfs(false);
    let mut pod_map = EfaDeviceToPodMap::new();
    pod_map.insert("rdmap0s31".to_string(), pod("pod-a", "ns-a"));

    let mut provider = create_provider_with_mock(&sysfs, ComputePlatform::Ec2K8sEks);
    let mut registry = Registry::new();
    provider.register_to(&mut registry).unwrap();

    // First scrape with pod-a
    write_counters(&mut sysfs, "rdmap0s31", 100, None);
    let _ = provider.update_metrics(&sysfs, Some(&pod_map));

    // Reassign to pod-b
    pod_map.insert("rdmap0s31".to_string(), pod("pod-b", "ns-b"));

    write_counters(&mut sysfs, "rdmap0s31", 200, None);
    let _ = provider.update_metrics(&sysfs, Some(&pod_map));

    let families = registry.gather();
    for mf in &families {
        assert_eq!(
            mf.get_metric().len(),
            1,
            "Should have exactly 1 series after reassignment for {}",
            mf.name()
        );
        let labels: Vec<(&str, &str)> = mf.get_metric()[0]
            .get_label()
            .iter()
            .map(|l| (l.name(), l.value()))
            .collect();
        assert!(
            labels.contains(&("pod", "pod-b")),
            "Expected pod=pod-b for {}, got {:?}",
            mf.name(),
            labels
        );
        assert!(
            !labels.contains(&("pod", "pod-a")),
            "Stale pod-a series should not exist for {}",
            mf.name()
        );
    }
}

#[test]
fn test_stale_series_removed_with_srd_on_pod_change() {
    let mut sysfs = create_mock_sysfs(true);
    let mut pod_map = EfaDeviceToPodMap::new();
    pod_map.insert("rdmap0s31".to_string(), pod("old-pod", "old-ns"));

    let mut provider = create_provider_with_mock(&sysfs, ComputePlatform::Ec2K8sEks);
    let mut registry = Registry::new();
    provider.register_to(&mut registry).unwrap();

    write_counters(&mut sysfs, "rdmap0s31", 100, Some(50));
    let _ = provider.update_metrics(&sysfs, Some(&pod_map));

    // Reassign to new-pod
    pod_map.insert("rdmap0s31".to_string(), pod("new-pod", "new-ns"));

    write_counters(&mut sysfs, "rdmap0s31", 200, Some(100));
    let _ = provider.update_metrics(&sysfs, Some(&pod_map));

    let families = registry.gather();
    let srd_names: Vec<&str> = SRD_METRICS.iter().map(|(name, _)| *name).collect();

    for mf in &families {
        assert_eq!(
            mf.get_metric().len(),
            1,
            "Should have exactly 1 series after reassignment for {} (SRD: {})",
            mf.name(),
            srd_names.contains(&mf.name())
        );
        let labels: Vec<(&str, &str)> = mf.get_metric()[0]
            .get_label()
            .iter()
            .map(|l| (l.name(), l.value()))
            .collect();
        assert!(
            labels.contains(&("pod", "new-pod")),
            "Expected pod=new-pod for {}, got {:?}",
            mf.name(),
            labels
        );
    }
}
