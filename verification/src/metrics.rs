//! The metrics that are exported for each port: their names, help texts and counter files.
use vstd::prelude::*;

use crate::gauges::valid_metric_name;

verus! {

/// Metrics of every EFA device: name and help text.
pub const STANDARD_METRICS: [(&'static str, &'static str); 17] = [
    ("efa_tx_bytes", "Bytes transmitted via EFA device since last scrape"),
    ("efa_rx_bytes", "Bytes received via EFA device since last scrape"),
    ("efa_tx_pkts", "Packets transmitted via EFA device since last scrape"),
    ("efa_rx_pkts", "Packets received via EFA device since last scrape"),
    ("efa_rx_drops", "Receive drops on EFA device since last scrape"),
    ("efa_send_bytes", "RDMA send bytes on EFA device since last scrape"),
    ("efa_recv_bytes", "RDMA recv bytes on EFA device since last scrape"),
    ("efa_send_wrs", "RDMA send work requests on EFA device since last scrape"),
    ("efa_recv_wrs", "RDMA recv work requests on EFA device since last scrape"),
    ("efa_rdma_read_wrs", "RDMA read work requests on EFA device since last scrape"),
    ("efa_rdma_read_bytes", "RDMA read bytes on EFA device since last scrape"),
    ("efa_rdma_write_wrs", "RDMA write work requests on EFA device since last scrape"),
    ("efa_rdma_write_bytes", "RDMA write bytes on EFA device since last scrape"),
    ("efa_rdma_read_wr_err", "RDMA read work request errors on EFA device since last scrape"),
    (
        "efa_rdma_write_wr_err",
        "RDMA write work request errors on EFA device since last scrape",
    ),
    ("efa_rdma_read_resp_bytes", "RDMA read response bytes on EFA device since last scrape"),
    ("efa_rdma_write_recv_bytes", "RDMA write received bytes on EFA device since last scrape"),
];

/// Metrics of devices whose firmware counts SRD retransmissions (Nitro v4 and later).
pub const SRD_METRICS: [(&'static str, &'static str); 5] = [
    (
        "efa_retrans_bytes",
        "SRD retransmitted bytes on EFA device since last scrape (Nitro v4+)",
    ),
    (
        "efa_retrans_pkts",
        "SRD retransmitted packets on EFA device since last scrape (Nitro v4+)",
    ),
    (
        "efa_retrans_timeout_events",
        "SRD retransmission timeout events on EFA device since last scrape (Nitro v4+)",
    ),
    (
        "efa_impaired_remote_conn_events",
        "Impaired remote connection events on EFA device since last scrape (Nitro v4+)",
    ),
    (
        "efa_unresponsive_remote_events",
        "Unresponsive remote events on EFA device since last scrape (Nitro v4+)",
    ),
];

/// Number of metrics of a port.
pub open spec fn metric_count(srd_available: bool) -> nat {
    if srd_available {
        STANDARD_METRICS@.len() + SRD_METRICS@.len()
    } else {
        STANDARD_METRICS@.len()
    }
}

/// Name and help text of metric `i`: the standard metrics first, then the SRD metrics.
pub open spec fn metric(i: int) -> (Seq<char>, Seq<char>) {
    if i < STANDARD_METRICS@.len() {
        (STANDARD_METRICS@[i].0@, STANDARD_METRICS@[i].1@)
    } else {
        let j = i - STANDARD_METRICS@.len();
        (SRD_METRICS@[j].0@, SRD_METRICS@[j].1@)
    }
}

/// `name` without a leading `efa_`.
pub open spec fn without_efa_prefix(name: Seq<char>) -> Seq<char> {
    if seq!['e', 'f', 'a', '_'].is_prefix_of(name) {
        name.skip(4)
    } else {
        name
    }
}

/// Name of the counter file that metric `i` is read from.
pub open spec fn counter_name(i: int) -> Seq<char> {
    without_efa_prefix(metric(i).0)
}

/// `prefixed_name` without a leading `efa_`: the name of a metric's counter file.
pub fn strip_efa_prefix(prefixed_name: &str) -> (name: &str)
    ensures
        name@ == without_efa_prefix(prefixed_name@),
{
    let n: usize = prefixed_name.unicode_len();
    if n >= 4 && prefixed_name.get_char(0) == 'e' && prefixed_name.get_char(1) == 'f'
        && prefixed_name.get_char(2) == 'a' && prefixed_name.get_char(3) == '_' {
        assert(seq!['e', 'f', 'a', '_'].is_prefix_of(prefixed_name@));
        assert(prefixed_name@.subrange(4, n as int) =~= prefixed_name@.skip(4));
        prefixed_name.substring_char(4, n)
    } else {
        assert(!seq!['e', 'f', 'a', '_'].is_prefix_of(prefixed_name@)) by {
            if seq!['e', 'f', 'a', '_'].is_prefix_of(prefixed_name@) {
                let head = prefixed_name@.subrange(0, 4);
                assert(seq!['e', 'f', 'a', '_'] =~= head);
                assert(head[0] == 'e' && head[1] == 'f' && head[2] == 'a' && head[3] == '_');
            }
        }
        prefixed_name
    }
}

/// The number of metrics of a port.
pub fn number_of_metrics(srd_available: bool) -> (n: usize)
    ensures
        n == metric_count(srd_available),
{
    STANDARD_METRICS.len() + if srd_available {
        SRD_METRICS.len()
    } else {
        0
    }
}

/// Name and help text of metric `i`.
pub fn metric_at(i: usize) -> (entry: (&'static str, &'static str))
    requires
        i < metric_count(true),
    ensures
        (entry.0@, entry.1@) == metric(i as int),
{
    if i < STANDARD_METRICS.len() {
        STANDARD_METRICS[i]
    } else {
        SRD_METRICS[i - STANDARD_METRICS.len()]
    }
}

/// Length, fifth character and tenth character of every metric name.
spec fn name_marks() -> Seq<(nat, char, char)> {
    seq![
        (12, 't', 't'),
        (12, 'r', 't'),
        (11, 't', 't'),
        (11, 'r', 't'),
        (12, 'r', 'o'),
        (14, 's', 'b'),
        (14, 'r', 'b'),
        (12, 's', 'w'),
        (12, 'r', 'w'),
        (17, 'r', 'r'),
        (19, 'r', 'r'),
        (18, 'r', 'w'),
        (20, 'r', 'w'),
        (20, 'r', 'r'),
        (21, 'r', 'w'),
        (24, 'r', 'r'),
        (25, 'r', 'w'),
        (17, 'r', 'n'),
        (16, 'r', 'n'),
        (26, 'r', 'n'),
        (31, 'i', 'r'),
        (30, 'u', 'p'),
    ]
}

/// Every metric has a valid metric name that starts with `efa_`, and a help text.
proof fn lemma_metric_entry(i: int)
    requires
        0 <= i < metric_count(true),
    ensures
        valid_metric_name(metric(i).0),
        seq!['e', 'f', 'a', '_'].is_prefix_of(metric(i).0),
        metric(i).1.len() > 0,
        (metric(i).0.len(), metric(i).0[4], metric(i).0[9]) == name_marks()[i],
{
    let name = metric(i).0;
    if i == 0 {
        reveal_strlit("efa_tx_bytes");
        reveal_strlit("Bytes transmitted via EFA device since last scrape");
    } else if i == 1 {
        reveal_strlit("efa_rx_bytes");
        reveal_strlit("Bytes received via EFA device since last scrape");
    } else if i == 2 {
        reveal_strlit("efa_tx_pkts");
        reveal_strlit("Packets transmitted via EFA device since last scrape");
    } else if i == 3 {
        reveal_strlit("efa_rx_pkts");
        reveal_strlit("Packets received via EFA device since last scrape");
    } else if i == 4 {
        reveal_strlit("efa_rx_drops");
        reveal_strlit("Receive drops on EFA device since last scrape");
    } else if i == 5 {
        reveal_strlit("efa_send_bytes");
        reveal_strlit("RDMA send bytes on EFA device since last scrape");
    } else if i == 6 {
        reveal_strlit("efa_recv_bytes");
        reveal_strlit("RDMA recv bytes on EFA device since last scrape");
    } else if i == 7 {
        reveal_strlit("efa_send_wrs");
        reveal_strlit("RDMA send work requests on EFA device since last scrape");
    } else if i == 8 {
        reveal_strlit("efa_recv_wrs");
        reveal_strlit("RDMA recv work requests on EFA device since last scrape");
    } else if i == 9 {
        reveal_strlit("efa_rdma_read_wrs");
        reveal_strlit("RDMA read work requests on EFA device since last scrape");
    } else if i == 10 {
        reveal_strlit("efa_rdma_read_bytes");
        reveal_strlit("RDMA read bytes on EFA device since last scrape");
    } else if i == 11 {
        reveal_strlit("efa_rdma_write_wrs");
        reveal_strlit("RDMA write work requests on EFA device since last scrape");
    } else if i == 12 {
        reveal_strlit("efa_rdma_write_bytes");
        reveal_strlit("RDMA write bytes on EFA device since last scrape");
    } else if i == 13 {
        reveal_strlit("efa_rdma_read_wr_err");
        reveal_strlit("RDMA read work request errors on EFA device since last scrape");
    } else if i == 14 {
        reveal_strlit("efa_rdma_write_wr_err");
        reveal_strlit("RDMA write work request errors on EFA device since last scrape");
    } else if i == 15 {
        reveal_strlit("efa_rdma_read_resp_bytes");
        reveal_strlit("RDMA read response bytes on EFA device since last scrape");
    } else if i == 16 {
        reveal_strlit("efa_rdma_write_recv_bytes");
        reveal_strlit("RDMA write received bytes on EFA device since last scrape");
    } else if i == 17 {
        reveal_strlit("efa_retrans_bytes");
        reveal_strlit("SRD retransmitted bytes on EFA device since last scrape (Nitro v4+)");
    } else if i == 18 {
        reveal_strlit("efa_retrans_pkts");
        reveal_strlit("SRD retransmitted packets on EFA device since last scrape (Nitro v4+)");
    } else if i == 19 {
        reveal_strlit("efa_retrans_timeout_events");
        reveal_strlit("SRD retransmission timeout events on EFA device since last scrape (Nitro v4+)");
    } else if i == 20 {
        reveal_strlit("efa_impaired_remote_conn_events");
        reveal_strlit("Impaired remote connection events on EFA device since last scrape (Nitro v4+)");
    } else {
        reveal_strlit("efa_unresponsive_remote_events");
        reveal_strlit("Unresponsive remote events on EFA device since last scrape (Nitro v4+)");
    }
    assert(name[0] == 'e' && name[1] == 'f' && name[2] == 'a' && name[3] == '_');
    assert(name.subrange(0, 4) =~= seq!['e', 'f', 'a', '_']);
}

/// Every metric has a valid metric name and a help text.
pub proof fn lemma_metric_valid(i: int)
    requires
        0 <= i < metric_count(true),
    ensures
        valid_metric_name(metric(i).0),
        metric(i).1.len() > 0,
{
    lemma_metric_entry(i);
}

/// Every metric is called `efa_`, followed by the name of its counter file.
pub proof fn law_metric_names_have_efa_prefix(i: int)
    requires
        0 <= i < metric_count(true),
    ensures
        metric(i).0 == seq!['e', 'f', 'a', '_'] + counter_name(i),
{
    lemma_metric_entry(i);
    let prefix = seq!['e', 'f', 'a', '_'];
    assert(metric(i).0.subrange(0, 4) =~= prefix);
    assert(metric(i).0 =~= prefix + counter_name(i));
}

/// No two metrics have the same name, or are read from the same counter file.
pub proof fn law_metric_names_are_distinct(i: int, j: int)
    requires
        0 <= i < j < metric_count(true),
    ensures
        metric(i).0 != metric(j).0,
        counter_name(i) != counter_name(j),
{
    lemma_metric_entry(i);
    lemma_metric_entry(j);
    law_metric_names_have_efa_prefix(i);
    law_metric_names_have_efa_prefix(j);
}

/// There are 17 metrics without SRD counters and 22 with them.
pub proof fn law_number_of_metrics(srd_available: bool)
    ensures
        metric_count(srd_available) == if srd_available {
            22nat
        } else {
            17nat
        },
{
}

/// The metrics are the entries of the two tables, each with its name and its help text: first every
/// standard metric, then every SRD metric.
pub proof fn law_metrics_are_the_tables(i: int)
    ensures
        0 <= i < 17 ==> metric(i) == (STANDARD_METRICS@[i].0@, STANDARD_METRICS@[i].1@),
        0 <= i < 5 ==> metric(17 + i) == (SRD_METRICS@[i].0@, SRD_METRICS@[i].1@),
{
}

/// `efa_` is taken off the front of a name once, and a name that does not start so stays as it is.
pub proof fn law_prefix_is_stripped_once(name: Seq<char>, rest: Seq<char>)
    ensures
        without_efa_prefix("efa_"@ + rest) == rest,
        (forall|r: Seq<char>| name != #[trigger] ("efa_"@ + r)) ==> without_efa_prefix(name)
            == name,
{
    reveal_strlit("efa_");
    let prefix = seq!['e', 'f', 'a', '_'];
    assert("efa_"@ =~= prefix);
    let whole = "efa_"@ + rest;
    assert(whole.subrange(0, 4) =~= prefix);
    assert(whole.skip(4) =~= rest);
    if prefix.is_prefix_of(name) {
        assert(name.subrange(0, 4) =~= prefix);
        assert(name =~= "efa_"@ + name.skip(4));
    }
}

/// The counter file of a metric is the one that its name names after `efa_`.
pub proof fn law_counter_file_is_named_by_the_metric(i: int, counter: Seq<char>)
    requires
        metric(i).0 == "efa_"@ + counter,
    ensures
        counter_name(i) == counter,
{
    law_prefix_is_stripped_once(metric(i).0, counter);
}

} // verus!
