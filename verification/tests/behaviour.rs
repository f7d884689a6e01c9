use efa_metrics::counter::{as_gauge_value, compute_delta, parse_counter};
use efa_metrics::gauges::RegistrationError;
use efa_metrics::metrics::{
    metric_at, number_of_metrics, strip_efa_prefix, SRD_METRICS, STANDARD_METRICS,
};
use efa_metrics::platform::{ComputePlatform, EfaMetric};
use efa_metrics::pods::{EfaDeviceToPodMap, EfaPodInfo};
use efa_metrics::provider::{cache_key, EfaMetricsProvider};
use efa_metrics::sysfs::{CounterFile, DeviceEntry, PortEntry, SysfsSnapshot};
use efa_metrics::table::KeyTable;
use efa_metrics::text::{contains_text, same_text, same_texts};
use prometheus::Registry;

fn file(name: &str, content: &str) -> CounterFile {
    CounterFile {
        name: name.to_string(),
        content: Some(content.to_string()),
    }
}

fn port(name: &str, counters: Vec<CounterFile>) -> Option<PortEntry> {
    Some(PortEntry {
        name: Some(name.to_string()),
        has_counters: true,
        counters,
    })
}

fn device(name: &str, ports: Vec<Option<PortEntry>>) -> Option<DeviceEntry> {
    Some(DeviceEntry {
        name: Some(name.to_string()),
        ports: Some(ports),
    })
}

fn sysfs(devices: Vec<Option<DeviceEntry>>) -> SysfsSnapshot {
    SysfsSnapshot {
        devices: Some(devices),
    }
}

/// Devices with one port each, which has transmitted so many bytes.
fn transmitted(ports: &[(&str, &str, &str)]) -> SysfsSnapshot {
    sysfs(
        ports
            .iter()
            .map(|(d, p, bytes)| device(d, vec![port(p, vec![file("tx_bytes", bytes)])]))
            .collect(),
    )
}

fn plain_provider(at: &SysfsSnapshot) -> EfaMetricsProvider {
    EfaMetricsProvider::new(&ComputePlatform::Ec2Plain, "i-1".to_string(), None, at)
}

/// Label values and value of every series of a metric.
fn series(registry: &Registry, metric: &str) -> Vec<(Vec<String>, f64)> {
    let families = registry.gather();
    let family = families.iter().find(|mf| mf.name() == metric);
    match family {
        None => vec![],
        Some(mf) => mf
            .get_metric()
            .iter()
            .map(|m| {
                let labels = m
                    .get_label()
                    .iter()
                    .map(|l| format!("{}={}", l.name(), l.value()))
                    .collect();
                (labels, m.get_gauge().value())
            })
            .collect(),
    }
}

fn labels(texts: &[&str]) -> Vec<String> {
    texts.iter().map(|t| t.to_string()).collect()
}

#[test]
fn counter_text_is_a_number_between_white_space() {
    assert_eq!(parse_counter("42\n"), Some(42));
    assert_eq!(parse_counter("42"), Some(42));
    assert_eq!(parse_counter(" \t\r\n0007 \u{b}\u{c}"), Some(7));
    assert_eq!(parse_counter("\u{a0}\u{2003}8\u{3000}\u{85}"), Some(8));
    assert_eq!(parse_counter("+5\n"), Some(5));
    assert_eq!(parse_counter("18446744073709551615"), Some(u64::MAX));
}

#[test]
fn counter_text_that_is_no_number() {
    for content in [
        "", "\n", "+", "-", "-1", "++1", "1 2", "12a", "0x10", "1_000", "1.5", "\u{664}",
        "18446744073709551616", "99999999999999999999999", "\u{200b}1",
    ] {
        assert_eq!(parse_counter(content), None, "{:?}", content);
        assert!(content.trim().parse::<u64>().is_err());
    }
}

#[test]
fn every_white_space_character_is_trimmed() {
    for code in 0..0x11_0000u32 {
        if let Some(c) = char::from_u32(code) {
            let text = format!("{}3", c);
            assert_eq!(
                parse_counter(&text),
                text.trim().parse::<u64>().ok(),
                "{:x}",
                code
            );
        }
    }
}

#[test]
fn deltas_at_the_limits() {
    assert_eq!(compute_delta(u64::MAX, 0), u64::MAX);
    assert_eq!(compute_delta(0, u64::MAX), 0);
    assert_eq!(as_gauge_value(5), 5);
    assert_eq!(as_gauge_value(i64::MAX as u64), i64::MAX);
    assert_eq!(as_gauge_value(i64::MAX as u64 + 1), i64::MIN);
    assert_eq!(as_gauge_value(u64::MAX), -1);
}

#[test]
fn prefix_is_stripped_once_and_only_in_front() {
    assert_eq!(strip_efa_prefix("efa_tx_bytes"), "tx_bytes");
    assert_eq!(strip_efa_prefix("efa_efa_x"), "efa_x");
    assert_eq!(strip_efa_prefix("tx_efa_bytes"), "tx_efa_bytes");
    assert_eq!(strip_efa_prefix("efa"), "efa");
    assert_eq!(strip_efa_prefix("efa_"), "");
    assert_eq!(strip_efa_prefix("efa_\u{e9}"), "\u{e9}");
    assert_eq!(strip_efa_prefix(""), "");
}

#[test]
fn metrics_are_numbered_standard_first() {
    assert_eq!(number_of_metrics(false), 17);
    assert_eq!(number_of_metrics(true), 22);
    assert_eq!(metric_at(0), STANDARD_METRICS[0]);
    assert_eq!(metric_at(16), STANDARD_METRICS[16]);
    assert_eq!(metric_at(17), SRD_METRICS[0]);
    assert_eq!(metric_at(21).0, "efa_unresponsive_remote_events");
}

#[test]
fn metric_names_are_distinct() {
    for i in 0..22 {
        for j in 0..i {
            assert_ne!(metric_at(i).0, metric_at(j).0);
        }
    }
}

#[test]
fn cache_keys_join_device_and_port() {
    assert_eq!(cache_key("rdmap0s31", "1"), "rdmap0s31/1");
    assert_eq!(cache_key("", ""), "/");
    assert_ne!(cache_key("rdmap0s3", "11"), cache_key("rdmap0s31", "1"));
}

#[test]
fn texts_compare_by_characters() {
    assert!(same_text("", ""));
    assert!(same_text("a\u{e9}", "a\u{e9}"));
    assert!(!same_text("a", "b"));
    assert!(!same_text("a", "ab"));
    let list = labels(&["x", "y"]);
    assert!(contains_text(&list, "y"));
    assert!(!contains_text(&list, "z"));
    assert!(same_texts(&list, &labels(&["x", "y"])));
    assert!(!same_texts(&list, &labels(&["y", "x"])));
    assert!(!same_texts(&list, &labels(&["x"])));
}

#[test]
fn table_files_values_under_keys() {
    let mut table: KeyTable<Vec<u64>> = KeyTable::new();
    assert_eq!(table.len(), 0);
    table.insert("a".to_string(), vec![1]);
    table.insert("b".to_string(), vec![2]);
    table.insert("a".to_string(), vec![3]);
    assert_eq!(table.len(), 2);
    assert_eq!(table.get("a"), Some(&vec![3]));
    assert_eq!(table.keys(), vec!["a", "b"]);
    assert_eq!(table.remove("a"), Some(vec![3]));
    assert_eq!(table.remove("a"), None);
    assert!(!table.contains_key("a"));
    table.insert("c".to_string(), vec![4]);
    table.retain_keys(&labels(&["c", "d"]));
    assert_eq!(table.keys(), vec!["c"]);
}

#[test]
fn entries_that_cannot_be_read_are_passed_over() {
    let found = sysfs(vec![
        None,
        Some(DeviceEntry {
            name: None,
            ports: Some(vec![port("1", vec![])]),
        }),
        Some(DeviceEntry {
            name: Some("closed".to_string()),
            ports: None,
        }),
        device(
            "d",
            vec![
                None,
                Some(PortEntry {
                    name: None,
                    has_counters: true,
                    counters: vec![],
                }),
                Some(PortEntry {
                    name: Some("bare".to_string()),
                    has_counters: false,
                    counters: vec![],
                }),
                port("2", vec![]),
                port("1", vec![]),
            ],
        ),
    ]);
    assert_eq!(
        EfaMetricsProvider::discover_device_ports(&found),
        vec![
            ("d".to_string(), "2".to_string()),
            ("d".to_string(), "1".to_string())
        ]
    );
    assert!(EfaMetricsProvider::efa_devices_present(&found));
    assert!(!EfaMetricsProvider::efa_devices_present(&sysfs(vec![
        None, None
    ])));
}

#[test]
fn srd_support_shows_in_any_port_of_any_device() {
    let unnamed = sysfs(vec![
        device("a", vec![port("1", vec![file("tx_bytes", "1")])]),
        Some(DeviceEntry {
            name: None,
            ports: Some(vec![None, port("2", vec![file("retrans_bytes", "1")])]),
        }),
    ]);
    assert!(EfaMetricsProvider::detect_srd_support(&unnamed));
    let other = sysfs(vec![device(
        "a",
        vec![port("1", vec![file("retrans_pkts", "1")])],
    )]);
    assert!(!EfaMetricsProvider::detect_srd_support(&other));
    assert!(!EfaMetricsProvider::detect_srd_support(&SysfsSnapshot {
        devices: None
    }));
}

#[test]
fn counters_are_read_from_their_own_file() {
    let found = sysfs(vec![
        device(
            "a",
            vec![
                port("1", vec![file("tx_bytes", "1\n"), file("rx_bytes", "2\n")]),
                port(
                    "2",
                    vec![
                        file("tx_bytes", "3\n"),
                        CounterFile {
                            name: "rx_bytes".to_string(),
                            content: None,
                        },
                        file("tx_pkts", "many"),
                    ],
                ),
            ],
        ),
        device("b", vec![port("1", vec![file("tx_bytes", "4\n")])]),
    ]);
    let read = |d, p, c| EfaMetricsProvider::read_counter(&found, d, p, c);
    assert_eq!(read("a", "1", "tx_bytes"), Some(1));
    assert_eq!(read("a", "1", "rx_bytes"), Some(2));
    assert_eq!(read("a", "2", "tx_bytes"), Some(3));
    assert_eq!(read("a", "2", "rx_bytes"), None);
    assert_eq!(read("a", "2", "tx_pkts"), None);
    assert_eq!(read("b", "1", "tx_bytes"), Some(4));
    assert_eq!(read("b", "2", "tx_bytes"), None);
    assert_eq!(read("c", "1", "tx_bytes"), None);

    let values = plain_provider(&found).read_all_counters(&found, "a", "1");
    assert_eq!(values.len(), 17);
    assert_eq!(values[..3], [1, 2, 0]);
}

#[test]
fn families_are_described_by_the_tables() {
    let found = transmitted(&[("d", "1", "5")]);
    let mut provider = plain_provider(&found);
    let mut registry = Registry::new();
    provider.register_to(&mut registry).unwrap();
    assert_eq!(registry.gather().len(), 0);
    provider.update_metrics(&found, None).unwrap();
    for (name, help) in STANDARD_METRICS {
        let families = registry.gather();
        let family = families.iter().find(|mf| mf.name() == name).unwrap();
        assert_eq!(family.help(), help);
    }
    assert_eq!(
        series(&registry, "efa_tx_bytes"),
        vec![(labels(&["device=d", "instance_id=i-1", "port=1"]), 0.0)]
    );
}

#[test]
fn families_are_registered_once() {
    let found = transmitted(&[("d", "1", "5")]);
    let provider = plain_provider(&found);
    let mut registry = Registry::new();
    assert_eq!(provider.register_to(&mut registry), Ok(()));
    assert_eq!(
        provider.register_to(&mut registry),
        Err(RegistrationError { family: 0 })
    );
}

#[test]
fn registration_stops_at_the_first_family_that_is_refused() {
    let found = transmitted(&[("d", "1", "5")]);
    let mut provider = plain_provider(&found);
    let mut registry = Registry::new();
    let taken = prometheus::IntGauge::new(STANDARD_METRICS[2].0, "taken").unwrap();
    registry.register(Box::new(taken)).unwrap();
    assert_eq!(
        provider.register_to(&mut registry),
        Err(RegistrationError { family: 2 })
    );
    provider.update_metrics(&found, None).unwrap();
    assert_eq!(registry.gather().len(), 3);
}

#[test]
fn port_that_appears_later_is_counted_from_zero() {
    let mut provider = plain_provider(&transmitted(&[("a", "1", "100")]));
    let mut registry = Registry::new();
    provider.register_to(&mut registry).unwrap();
    let later = transmitted(&[("a", "1", "130"), ("b", "1", "70")]);
    provider.update_metrics(&later, None).unwrap();
    assert_eq!(
        series(&registry, "efa_tx_bytes"),
        vec![
            (labels(&["device=a", "instance_id=i-1", "port=1"]), 30.0),
            (labels(&["device=b", "instance_id=i-1", "port=1"]), 70.0)
        ]
    );
}

#[test]
fn port_that_comes_back_is_counted_from_zero() {
    let there = transmitted(&[("a", "1", "100")]);
    let mut provider = plain_provider(&there);
    let mut registry = Registry::new();
    provider.register_to(&mut registry).unwrap();
    provider.update_metrics(&there, None).unwrap();
    provider
        .update_metrics(&SysfsSnapshot { devices: None }, None)
        .unwrap();
    assert_eq!(series(&registry, "efa_tx_bytes"), vec![]);
    assert_eq!(provider.previous_values().len(), 0);
    provider.update_metrics(&there, None).unwrap();
    assert_eq!(
        series(&registry, "efa_tx_bytes"),
        vec![(labels(&["device=a", "instance_id=i-1", "port=1"]), 100.0)]
    );
}

#[test]
fn large_deltas_wrap() {
    let mut provider = plain_provider(&transmitted(&[("a", "1", "0")]));
    let mut registry = Registry::new();
    provider.register_to(&mut registry).unwrap();
    let later = transmitted(&[("a", "1", "18446744073709551615")]);
    provider.update_metrics(&later, None).unwrap();
    assert_eq!(series(&registry, "efa_tx_bytes")[0].1, -1.0);
}

#[test]
fn counters_change_one_by_one() {
    let at = |tx: &str, rx: &str| {
        sysfs(vec![device(
            "a",
            vec![port("1", vec![file("tx_bytes", tx), file("rx_bytes", rx)])],
        )])
    };
    let mut provider = plain_provider(&at("10", "20"));
    let mut registry = Registry::new();
    provider.register_to(&mut registry).unwrap();
    provider.update_metrics(&at("15", "3"), None).unwrap();
    assert_eq!(series(&registry, "efa_tx_bytes")[0].1, 5.0);
    assert_eq!(series(&registry, "efa_rx_bytes")[0].1, 3.0);
    assert_eq!(series(&registry, "efa_tx_pkts")[0].1, 0.0);
}

#[test]
fn ports_whose_labels_read_the_same_share_a_series() {
    let start = transmitted(&[("rdmap0s3", "11", "0"), ("rdmap0s31", "1", "0")]);
    let mut provider = plain_provider(&start);
    let mut registry = Registry::new();
    provider.register_to(&mut registry).unwrap();
    let later = transmitted(&[("rdmap0s3", "11", "4"), ("rdmap0s31", "1", "9")]);
    provider.update_metrics(&later, None).unwrap();
    assert_eq!(
        series(&registry, "efa_tx_bytes"),
        vec![(
            labels(&["device=rdmap0s3", "instance_id=i-1", "port=11"]),
            9.0
        )]
    );
    let left = transmitted(&[("rdmap0s31", "1", "10")]);
    provider.update_metrics(&left, None).unwrap();
    assert_eq!(
        series(&registry, "efa_tx_bytes"),
        vec![(
            labels(&["device=rdmap0s31", "instance_id=i-1", "port=1"]),
            1.0
        )]
    );
}

#[test]
fn node_and_pod_are_labels_on_kubernetes_only() {
    let found = transmitted(&[("a", "1", "0")]);
    let mut pods = EfaDeviceToPodMap::new();
    pods.insert(
        "a".to_string(),
        EfaPodInfo {
            pod_name: "p".to_string(),
            pod_namespace: "n".to_string(),
        },
    );
    for platform in [ComputePlatform::Ec2K8sEks, ComputePlatform::Ec2K8sVanilla] {
        let provider = EfaMetricsProvider::new(&platform, "i-1".to_string(), None, &found);
        assert_eq!(
            provider.label_values("a", "1", Some(&pods)),
            labels(&["i-1", "a", "1", "unknown", "p", "n"])
        );
        assert_eq!(EfaMetric::get_labels(&platform).len(), 6);
    }
    let plain = plain_provider(&found);
    assert_eq!(
        plain.label_values("a", "1", Some(&pods)),
        labels(&["i-1", "a", "1"])
    );
    assert_eq!(
        plain.label_values("a", "1", None),
        labels(&["i-1", "a", "1"])
    );
    assert_eq!(
        EfaMetricsProvider::resolve_pod_for_device(Some(&pods), "a"),
        ("p".to_string(), "n".to_string())
    );
    assert_eq!(
        EfaMetricsProvider::resolve_pod_for_device(Some(&pods), "b"),
        ("unknown".to_string(), "unknown".to_string())
    );
}

#[test]
fn pod_change_keeps_the_delta() {
    let provider_at = transmitted(&[("a", "1", "10")]);
    let mut provider = EfaMetricsProvider::new(
        &ComputePlatform::Ec2K8sEks,
        "i-1".to_string(),
        Some("n1".to_string()),
        &provider_at,
    );
    let mut registry = Registry::new();
    provider.register_to(&mut registry).unwrap();
    provider.update_metrics(&provider_at, None).unwrap();
    let mut pods = EfaDeviceToPodMap::new();
    pods.insert(
        "a".to_string(),
        EfaPodInfo {
            pod_name: "p".to_string(),
            pod_namespace: "n".to_string(),
        },
    );
    provider
        .update_metrics(&transmitted(&[("a", "1", "17")]), Some(&pods))
        .unwrap();
    assert_eq!(
        series(&registry, "efa_tx_bytes"),
        vec![(
            labels(&[
                "device=a",
                "instance_id=i-1",
                "namespace=n",
                "node=n1",
                "pod=p",
                "port=1"
            ]),
            7.0
        )]
    );
}

#[test]
fn deltas_add_up_to_what_was_counted() {
    let readings = [7u64, 7, 19, 1000, 1001];
    let mut total = 0;
    for pair in readings.windows(2) {
        total += compute_delta(pair[1], pair[0]);
    }
    assert_eq!(total, 994);
}

#[test]
fn written_numbers_read_back() {
    for value in [0, 1, 42, 1_000_000, i64::MAX as u64, u64::MAX] {
        assert_eq!(parse_counter(&format!("{}\n", value)), Some(value));
    }
}

#[test]
fn registry_refuses_providers_of_any_platform_twice() {
    let found = transmitted(&[("d", "1", "5")]);
    let platforms = [
        ComputePlatform::Ec2Plain,
        ComputePlatform::Ec2K8sEks,
        ComputePlatform::Ec2K8sVanilla,
    ];
    for first in platforms {
        for second in platforms {
            let mut registry = Registry::new();
            let provider = EfaMetricsProvider::new(&first, "i-1".to_string(), None, &found);
            let other = EfaMetricsProvider::new(&second, "i-2".to_string(), None, &found);
            assert_eq!(provider.register_to(&mut registry), Ok(()));
            assert_eq!(
                other.register_to(&mut registry),
                Err(RegistrationError { family: 0 })
            );
        }
    }
}

#[test]
fn registry_shows_every_later_scrape() {
    let mut provider = plain_provider(&transmitted(&[("a", "1", "0")]));
    let mut registry = Registry::new();
    provider.register_to(&mut registry).unwrap();
    for (bytes, delta) in [("5", 5.0), ("9", 4.0), ("9", 0.0), ("2", 2.0)] {
        provider
            .update_metrics(&transmitted(&[("a", "1", bytes)]), None)
            .unwrap();
        assert_eq!(registry.gather().len(), 17);
        assert_eq!(series(&registry, "efa_tx_bytes")[0].1, delta);
    }
}

#[test]
fn repeated_scrape_changes_only_values() {
    let start = transmitted(&[("a", "1", "0"), ("b", "2", "0")]);
    let mut provider = plain_provider(&start);
    let mut registry = Registry::new();
    provider.register_to(&mut registry).unwrap();
    let later = transmitted(&[("a", "1", "3"), ("b", "2", "4")]);
    provider.update_metrics(&later, None).unwrap();
    let first = series(&registry, "efa_tx_bytes");
    let kept = provider.previous_values().keys();
    provider.update_metrics(&later, None).unwrap();
    let second = series(&registry, "efa_tx_bytes");
    assert_eq!(first.len(), 2);
    assert_eq!(second.len(), 2);
    for (before, after) in first.iter().zip(second.iter()) {
        assert_eq!(before.0, after.0);
        assert_eq!(after.1, 0.0);
    }
    assert_eq!(provider.previous_values().keys(), kept);
    for key in kept {
        assert_eq!(provider.previous_values().get(&key).unwrap().len(), 17);
    }
}

#[test]
fn port_that_stands_alone_is_right_beside_ports_that_share_a_series() {
    let start = transmitted(&[
        ("rdmap0s3", "11", "0"),
        ("rdmap0s31", "1", "0"),
        ("z", "1", "10"),
    ]);
    let mut provider = plain_provider(&start);
    let mut registry = Registry::new();
    provider.register_to(&mut registry).unwrap();
    let later = transmitted(&[
        ("rdmap0s3", "11", "4"),
        ("rdmap0s31", "1", "9"),
        ("z", "1", "16"),
    ]);
    provider.update_metrics(&later, None).unwrap();
    let shown = series(&registry, "efa_tx_bytes");
    assert_eq!(shown.len(), 2);
    assert_eq!(
        shown[1],
        (labels(&["device=z", "instance_id=i-1", "port=1"]), 6.0)
    );
}

/// The 64-bit FNV-1a hash.
fn fnv1a(bytes: &[u8]) -> u64 {
    bytes.iter().fold(0xcbf2_9ce4_8422_2325, |hash, byte| {
        (hash ^ *byte as u64).wrapping_mul(0x100_0000_01b3)
    })
}

#[test]
fn identifiers_are_hashes_of_names() {
    for i in 0..22 {
        let (name, help) = metric_at(i);
        let opts = prometheus::Opts::new(name, help);
        let family = prometheus::IntGaugeVec::new(opts, &["device"]).unwrap();
        let mut bytes = name.as_bytes().to_vec();
        bytes.push(0xff);
        assert_eq!(prometheus::core::Collector::desc(&family)[0].id, fnv1a(&bytes));
    }
    let opts = prometheus::Opts::new("efa_tx_bytes", "other help");
    let family = prometheus::IntGaugeVec::new(opts, &[]).unwrap();
    assert_eq!(prometheus::core::Collector::desc(&family)[0].id, 0xe104_51d7_42ad_95eb);
}
