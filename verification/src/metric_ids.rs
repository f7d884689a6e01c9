//! The identifiers under which the metrics are registered.
use vstd::prelude::*;

use crate::hash::{fnv1a, fnv_step, metric_id};
use crate::metrics::{metric, metric_count};

verus! {

/// The identifier of every metric.
spec fn id_table() -> Seq<u64> {
    seq![
        0xe104_51d7_42ad_95eb,
        0xbe77_191c_d25d_5441,
        0xfbbf_eeb5_3712_8e40,
        0x8a7a_6eb4_b547_f61a,
        0xc839_02e6_aba1_e8f6,
        0x97f0_f14a_5efa_cbb9,
        0x55c9_b64e_5473_4493,
        0x0f0b_a2b4_7a99_d27e,
        0xef1d_b8dc_8254_7d44,
        0x26c4_e732_dd0c_4917,
        0x672b_5887_2004_6d4c,
        0x4f4f_2ea6_4a65_d94c,
        0x92b0_a624_fa86_124b,
        0x68e4_ddfe_64a9_aefa,
        0x448b_3883_d516_01e7,
        0x4aeb_34fe_e0a7_7a3f,
        0xc69a_22ac_5580_d1ac,
        0x66b2_d2f6_c49b_5d18,
        0xab7e_7dda_58f1_993d,
        0x7e8c_ac53_4aec_4c0a,
        0x9406_d4ba_4822_830a,
        0x26c3_ed6b_2a6e_a6a3,
    ]
}

/// The FNV-1a hash of some bytes and four more, where `hash` is that of the bytes.
spec fn fnv_step4(hash: u64, a: u8, b: u8, c: u8, d: u8) -> u64 {
    fnv_step(fnv_step(fnv_step(fnv_step(hash, a), b), c), d)
}

/// The FNV-1a hash of some bytes and eight more, where `hash` is that of the bytes.
spec fn fnv_step8(hash: u64, a: u8, b: u8, c: u8, d: u8, e: u8, f: u8, g: u8, h: u8) -> u64 {
    fnv_step4(fnv_step4(hash, a, b, c, d), e, f, g, h)
}

/// The bytes that the identifier of a metric with an ASCII name is the hash of.
spec fn id_bytes(name: Seq<char>) -> Seq<u8> {
    Seq::new(
        name.len() + 1,
        |i: int|
            if i < name.len() {
                name[i] as u8
            } else {
                0xff
            },
    )
}

proof fn lemma_id_bytes(name: Seq<char>)
    requires
        vstd::utf8::is_ascii_chars(name),
    ensures
        metric_id(name) == fnv1a(id_bytes(name)),
{
    reveal(metric_id);
    vstd::utf8::is_ascii_chars_encode_utf8(name);
    assert(id_bytes(name) =~= vstd::utf8::encode_utf8(name).push(0xff));
}

proof fn lemma_id_of_tx_bytes()
    ensures
        metric_id("efa_tx_bytes"@) == 0xe104_51d7_42ad_95eb,
{
    reveal_strlit("efa_tx_bytes");
    lemma_id_bytes("efa_tx_bytes"@);
    reveal_with_fuel(fnv1a, 14);
    assert({
        let h: u64 = fnv_step8(0xcbf2_9ce4_8422_2325u64, 101, 102, 97, 95, 116, 120, 95, 98);
        let h: u64 = fnv_step4(h, 121, 116, 101, 115);
        fnv_step(h, 255) == 0xe104_51d7_42ad_95eb
    }) by (bit_vector);
}

proof fn lemma_id_of_rx_bytes()
    ensures
        metric_id("efa_rx_bytes"@) == 0xbe77_191c_d25d_5441,
{
    reveal_strlit("efa_rx_bytes");
    lemma_id_bytes("efa_rx_bytes"@);
    reveal_with_fuel(fnv1a, 14);
    assert({
        let h: u64 = fnv_step8(0xcbf2_9ce4_8422_2325u64, 101, 102, 97, 95, 114, 120, 95, 98);
        let h: u64 = fnv_step4(h, 121, 116, 101, 115);
        fnv_step(h, 255) == 0xbe77_191c_d25d_5441
    }) by (bit_vector);
}

proof fn lemma_id_of_tx_pkts()
    ensures
        metric_id("efa_tx_pkts"@) == 0xfbbf_eeb5_3712_8e40,
{
    reveal_strlit("efa_tx_pkts");
    lemma_id_bytes("efa_tx_pkts"@);
    reveal_with_fuel(fnv1a, 13);
    assert({
        let h: u64 = fnv_step8(0xcbf2_9ce4_8422_2325u64, 101, 102, 97, 95, 116, 120, 95, 112);
        let h: u64 = fnv_step4(h, 107, 116, 115, 255);
        h == 0xfbbf_eeb5_3712_8e40
    }) by (bit_vector);
}

proof fn lemma_id_of_rx_pkts()
    ensures
        metric_id("efa_rx_pkts"@) == 0x8a7a_6eb4_b547_f61a,
{
    reveal_strlit("efa_rx_pkts");
    lemma_id_bytes("efa_rx_pkts"@);
    reveal_with_fuel(fnv1a, 13);
    assert({
        let h: u64 = fnv_step8(0xcbf2_9ce4_8422_2325u64, 101, 102, 97, 95, 114, 120, 95, 112);
        let h: u64 = fnv_step4(h, 107, 116, 115, 255);
        h == 0x8a7a_6eb4_b547_f61a
    }) by (bit_vector);
}

proof fn lemma_id_of_rx_drops()
    ensures
        metric_id("efa_rx_drops"@) == 0xc839_02e6_aba1_e8f6,
{
    reveal_strlit("efa_rx_drops");
    lemma_id_bytes("efa_rx_drops"@);
    reveal_with_fuel(fnv1a, 14);
    assert({
        let h: u64 = fnv_step8(0xcbf2_9ce4_8422_2325u64, 101, 102, 97, 95, 114, 120, 95, 100);
        let h: u64 = fnv_step4(h, 114, 111, 112, 115);
        fnv_step(h, 255) == 0xc839_02e6_aba1_e8f6
    }) by (bit_vector);
}

proof fn lemma_id_of_send_bytes()
    ensures
        metric_id("efa_send_bytes"@) == 0x97f0_f14a_5efa_cbb9,
{
    reveal_strlit("efa_send_bytes");
    lemma_id_bytes("efa_send_bytes"@);
    reveal_with_fuel(fnv1a, 16);
    assert({
        let h: u64 = fnv_step8(0xcbf2_9ce4_8422_2325u64, 101, 102, 97, 95, 115, 101, 110, 100);
        let h: u64 = fnv_step4(h, 95, 98, 121, 116);
        fnv_step(fnv_step(fnv_step(h, 101), 115), 255) == 0x97f0_f14a_5efa_cbb9
    }) by (bit_vector);
}

proof fn lemma_id_of_recv_bytes()
    ensures
        metric_id("efa_recv_bytes"@) == 0x55c9_b64e_5473_4493,
{
    reveal_strlit("efa_recv_bytes");
    lemma_id_bytes("efa_recv_bytes"@);
    reveal_with_fuel(fnv1a, 16);
    assert({
        let h: u64 = fnv_step8(0xcbf2_9ce4_8422_2325u64, 101, 102, 97, 95, 114, 101, 99, 118);
        let h: u64 = fnv_step4(h, 95, 98, 121, 116);
        fnv_step(fnv_step(fnv_step(h, 101), 115), 255) == 0x55c9_b64e_5473_4493
    }) by (bit_vector);
}

proof fn lemma_id_of_send_wrs()
    ensures
        metric_id("efa_send_wrs"@) == 0x0f0b_a2b4_7a99_d27e,
{
    reveal_strlit("efa_send_wrs");
    lemma_id_bytes("efa_send_wrs"@);
    reveal_with_fuel(fnv1a, 14);
    assert({
        let h: u64 = fnv_step8(0xcbf2_9ce4_8422_2325u64, 101, 102, 97, 95, 115, 101, 110, 100);
        let h: u64 = fnv_step4(h, 95, 119, 114, 115);
        fnv_step(h, 255) == 0x0f0b_a2b4_7a99_d27e
    }) by (bit_vector);
}

proof fn lemma_id_of_recv_wrs()
    ensures
        metric_id("efa_recv_wrs"@) == 0xef1d_b8dc_8254_7d44,
{
    reveal_strlit("efa_recv_wrs");
    lemma_id_bytes("efa_recv_wrs"@);
    reveal_with_fuel(fnv1a, 14);
    assert({
        let h: u64 = fnv_step8(0xcbf2_9ce4_8422_2325u64, 101, 102, 97, 95, 114, 101, 99, 118);
        let h: u64 = fnv_step4(h, 95, 119, 114, 115);
        fnv_step(h, 255) == 0xef1d_b8dc_8254_7d44
    }) by (bit_vector);
}

proof fn lemma_id_of_rdma_read_wrs()
    ensures
        metric_id("efa_rdma_read_wrs"@) == 0x26c4_e732_dd0c_4917,
{
    reveal_strlit("efa_rdma_read_wrs");
    lemma_id_bytes("efa_rdma_read_wrs"@);
    reveal_with_fuel(fnv1a, 19);
    assert({
        let h: u64 = fnv_step8(0xcbf2_9ce4_8422_2325u64, 101, 102, 97, 95, 114, 100, 109, 97);
        let h: u64 = fnv_step8(h, 95, 114, 101, 97, 100, 95, 119, 114);
        fnv_step(fnv_step(h, 115), 255) == 0x26c4_e732_dd0c_4917
    }) by (bit_vector);
}

proof fn lemma_id_of_rdma_read_bytes()
    ensures
        metric_id("efa_rdma_read_bytes"@) == 0x672b_5887_2004_6d4c,
{
    reveal_strlit("efa_rdma_read_bytes");
    lemma_id_bytes("efa_rdma_read_bytes"@);
    reveal_with_fuel(fnv1a, 21);
    assert({
        let h: u64 = fnv_step8(0xcbf2_9ce4_8422_2325u64, 101, 102, 97, 95, 114, 100, 109, 97);
        let h: u64 = fnv_step8(h, 95, 114, 101, 97, 100, 95, 98, 121);
        let h: u64 = fnv_step4(h, 116, 101, 115, 255);
        h == 0x672b_5887_2004_6d4c
    }) by (bit_vector);
}

proof fn lemma_id_of_rdma_write_wrs()
    ensures
        metric_id("efa_rdma_write_wrs"@) == 0x4f4f_2ea6_4a65_d94c,
{
    reveal_strlit("efa_rdma_write_wrs");
    lemma_id_bytes("efa_rdma_write_wrs"@);
    reveal_with_fuel(fnv1a, 20);
    assert({
        let h: u64 = fnv_step8(0xcbf2_9ce4_8422_2325u64, 101, 102, 97, 95, 114, 100, 109, 97);
        let h: u64 = fnv_step8(h, 95, 119, 114, 105, 116, 101, 95, 119);
        fnv_step(fnv_step(fnv_step(h, 114), 115), 255) == 0x4f4f_2ea6_4a65_d94c
    }) by (bit_vector);
}

proof fn lemma_id_of_rdma_write_bytes()
    ensures
        metric_id("efa_rdma_write_bytes"@) == 0x92b0_a624_fa86_124b,
{
    reveal_strlit("efa_rdma_write_bytes");
    lemma_id_bytes("efa_rdma_write_bytes"@);
    reveal_with_fuel(fnv1a, 22);
    assert({
        let h: u64 = fnv_step8(0xcbf2_9ce4_8422_2325u64, 101, 102, 97, 95, 114, 100, 109, 97);
        let h: u64 = fnv_step8(h, 95, 119, 114, 105, 116, 101, 95, 98);
        let h: u64 = fnv_step4(h, 121, 116, 101, 115);
        fnv_step(h, 255) == 0x92b0_a624_fa86_124b
    }) by (bit_vector);
}

proof fn lemma_id_of_rdma_read_wr_err()
    ensures
        metric_id("efa_rdma_read_wr_err"@) == 0x68e4_ddfe_64a9_aefa,
{
    reveal_strlit("efa_rdma_read_wr_err");
    lemma_id_bytes("efa_rdma_read_wr_err"@);
    reveal_with_fuel(fnv1a, 22);
    assert({
        let h: u64 = fnv_step8(0xcbf2_9ce4_8422_2325u64, 101, 102, 97, 95, 114, 100, 109, 97);
        let h: u64 = fnv_step8(h, 95, 114, 101, 97, 100, 95, 119, 114);
        let h: u64 = fnv_step4(h, 95, 101, 114, 114);
        fnv_step(h, 255) == 0x68e4_ddfe_64a9_aefa
    }) by (bit_vector);
}

proof fn lemma_id_of_rdma_write_wr_err()
    ensures
        metric_id("efa_rdma_write_wr_err"@) == 0x448b_3883_d516_01e7,
{
    reveal_strlit("efa_rdma_write_wr_err");
    lemma_id_bytes("efa_rdma_write_wr_err"@);
    reveal_with_fuel(fnv1a, 23);
    assert({
        let h: u64 = fnv_step8(0xcbf2_9ce4_8422_2325u64, 101, 102, 97, 95, 114, 100, 109, 97);
        let h: u64 = fnv_step8(h, 95, 119, 114, 105, 116, 101, 95, 119);
        let h: u64 = fnv_step4(h, 114, 95, 101, 114);
        fnv_step(fnv_step(h, 114), 255) == 0x448b_3883_d516_01e7
    }) by (bit_vector);
}

proof fn lemma_id_of_rdma_read_resp_bytes()
    ensures
        metric_id("efa_rdma_read_resp_bytes"@) == 0x4aeb_34fe_e0a7_7a3f,
{
    reveal_strlit("efa_rdma_read_resp_bytes");
    lemma_id_bytes("efa_rdma_read_resp_bytes"@);
    reveal_with_fuel(fnv1a, 26);
    assert({
        let h: u64 = fnv_step8(0xcbf2_9ce4_8422_2325u64, 101, 102, 97, 95, 114, 100, 109, 97);
        let h: u64 = fnv_step8(h, 95, 114, 101, 97, 100, 95, 114, 101);
        let h: u64 = fnv_step8(h, 115, 112, 95, 98, 121, 116, 101, 115);
        fnv_step(h, 255) == 0x4aeb_34fe_e0a7_7a3f
    }) by (bit_vector);
}

proof fn lemma_id_of_rdma_write_recv_bytes()
    ensures
        metric_id("efa_rdma_write_recv_bytes"@) == 0xc69a_22ac_5580_d1ac,
{
    reveal_strlit("efa_rdma_write_recv_bytes");
    lemma_id_bytes("efa_rdma_write_recv_bytes"@);
    reveal_with_fuel(fnv1a, 27);
    assert({
        let h: u64 = fnv_step8(0xcbf2_9ce4_8422_2325u64, 101, 102, 97, 95, 114, 100, 109, 97);
        let h: u64 = fnv_step8(h, 95, 119, 114, 105, 116, 101, 95, 114);
        let h: u64 = fnv_step8(h, 101, 99, 118, 95, 98, 121, 116, 101);
        fnv_step(fnv_step(h, 115), 255) == 0xc69a_22ac_5580_d1ac
    }) by (bit_vector);
}

proof fn lemma_id_of_retrans_bytes()
    ensures
        metric_id("efa_retrans_bytes"@) == 0x66b2_d2f6_c49b_5d18,
{
    reveal_strlit("efa_retrans_bytes");
    lemma_id_bytes("efa_retrans_bytes"@);
    reveal_with_fuel(fnv1a, 19);
    assert({
        let h: u64 = fnv_step8(0xcbf2_9ce4_8422_2325u64, 101, 102, 97, 95, 114, 101, 116, 114);
        let h: u64 = fnv_step8(h, 97, 110, 115, 95, 98, 121, 116, 101);
        fnv_step(fnv_step(h, 115), 255) == 0x66b2_d2f6_c49b_5d18
    }) by (bit_vector);
}

proof fn lemma_id_of_retrans_pkts()
    ensures
        metric_id("efa_retrans_pkts"@) == 0xab7e_7dda_58f1_993d,
{
    reveal_strlit("efa_retrans_pkts");
    lemma_id_bytes("efa_retrans_pkts"@);
    reveal_with_fuel(fnv1a, 18);
    assert({
        let h: u64 = fnv_step8(0xcbf2_9ce4_8422_2325u64, 101, 102, 97, 95, 114, 101, 116, 114);
        let h: u64 = fnv_step8(h, 97, 110, 115, 95, 112, 107, 116, 115);
        fnv_step(h, 255) == 0xab7e_7dda_58f1_993d
    }) by (bit_vector);
}

proof fn lemma_id_of_retrans_timeout_events()
    ensures
        metric_id("efa_retrans_timeout_events"@) == 0x7e8c_ac53_4aec_4c0a,
{
    reveal_strlit("efa_retrans_timeout_events");
    lemma_id_bytes("efa_retrans_timeout_events"@);
    reveal_with_fuel(fnv1a, 28);
    assert({
        let h: u64 = fnv_step8(0xcbf2_9ce4_8422_2325u64, 101, 102, 97, 95, 114, 101, 116, 114);
        let h: u64 = fnv_step8(h, 97, 110, 115, 95, 116, 105, 109, 101);
        let h: u64 = fnv_step8(h, 111, 117, 116, 95, 101, 118, 101, 110);
        fnv_step(fnv_step(fnv_step(h, 116), 115), 255) == 0x7e8c_ac53_4aec_4c0a
    }) by (bit_vector);
}

proof fn lemma_id_of_impaired_remote_conn_events()
    ensures
        metric_id("efa_impaired_remote_conn_events"@) == 0x9406_d4ba_4822_830a,
{
    reveal_strlit("efa_impaired_remote_conn_events");
    lemma_id_bytes("efa_impaired_remote_conn_events"@);
    reveal_with_fuel(fnv1a, 33);
    assert({
        let h: u64 = fnv_step8(0xcbf2_9ce4_8422_2325u64, 101, 102, 97, 95, 105, 109, 112, 97);
        let h: u64 = fnv_step8(h, 105, 114, 101, 100, 95, 114, 101, 109);
        let h: u64 = fnv_step8(h, 111, 116, 101, 95, 99, 111, 110, 110);
        let h: u64 = fnv_step8(h, 95, 101, 118, 101, 110, 116, 115, 255);
        h == 0x9406_d4ba_4822_830a
    }) by (bit_vector);
}

proof fn lemma_id_of_unresponsive_remote_events()
    ensures
        metric_id("efa_unresponsive_remote_events"@) == 0x26c3_ed6b_2a6e_a6a3,
{
    reveal_strlit("efa_unresponsive_remote_events");
    lemma_id_bytes("efa_unresponsive_remote_events"@);
    reveal_with_fuel(fnv1a, 32);
    assert({
        let h: u64 = fnv_step8(0xcbf2_9ce4_8422_2325u64, 101, 102, 97, 95, 117, 110, 114, 101);
        let h: u64 = fnv_step8(h, 115, 112, 111, 110, 115, 105, 118, 101);
        let h: u64 = fnv_step8(h, 95, 114, 101, 109, 111, 116, 101, 95);
        let h: u64 = fnv_step4(h, 101, 118, 101, 110);
        fnv_step(fnv_step(fnv_step(h, 116), 115), 255) == 0x26c3_ed6b_2a6e_a6a3
    }) by (bit_vector);
}

proof fn lemma_metric_id(i: int)
    requires
        0 <= i < metric_count(true),
    ensures
        metric_id(metric(i).0) == id_table()[i],
{
    if i == 0 {
        lemma_id_of_tx_bytes();
    } else if i == 1 {
        lemma_id_of_rx_bytes();
    } else if i == 2 {
        lemma_id_of_tx_pkts();
    } else if i == 3 {
        lemma_id_of_rx_pkts();
    } else if i == 4 {
        lemma_id_of_rx_drops();
    } else if i == 5 {
        lemma_id_of_send_bytes();
    } else if i == 6 {
        lemma_id_of_recv_bytes();
    } else if i == 7 {
        lemma_id_of_send_wrs();
    } else if i == 8 {
        lemma_id_of_recv_wrs();
    } else if i == 9 {
        lemma_id_of_rdma_read_wrs();
    } else if i == 10 {
        lemma_id_of_rdma_read_bytes();
    } else if i == 11 {
        lemma_id_of_rdma_write_wrs();
    } else if i == 12 {
        lemma_id_of_rdma_write_bytes();
    } else if i == 13 {
        lemma_id_of_rdma_read_wr_err();
    } else if i == 14 {
        lemma_id_of_rdma_write_wr_err();
    } else if i == 15 {
        lemma_id_of_rdma_read_resp_bytes();
    } else if i == 16 {
        lemma_id_of_rdma_write_recv_bytes();
    } else if i == 17 {
        lemma_id_of_retrans_bytes();
    } else if i == 18 {
        lemma_id_of_retrans_pkts();
    } else if i == 19 {
        lemma_id_of_retrans_timeout_events();
    } else if i == 20 {
        lemma_id_of_impaired_remote_conn_events();
    } else {
        lemma_id_of_unresponsive_remote_events();
    }
}

/// No two metrics have the same identifier.
pub proof fn law_metric_ids_are_distinct(i: int, j: int)
    requires
        0 <= i < j < metric_count(true),
    ensures
        metric_id(metric(i).0) != metric_id(metric(j).0),
{
    lemma_metric_id(i);
    lemma_metric_id(j);
}

} // verus!
