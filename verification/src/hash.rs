//! The hashes under which the `prometheus` crate files series and collectors.
use vstd::prelude::*;

verus! {

/// The FNV-1a hash of some bytes and `byte`, where `hash` is that of the bytes.
pub open spec fn fnv_step(hash: u64, byte: u8) -> u64 {
    ((hash ^ byte as u64) * 0x100_0000_01b3u64) as u64
}

/// The 64-bit FNV-1a hash of `bytes`.
pub open spec fn fnv1a(bytes: Seq<u8>) -> u64
    decreases bytes.len(),
{
    if bytes.len() == 0 {
        0xcbf2_9ce4_8422_2325
    } else {
        fnv_step(fnv1a(bytes.drop_last()), bytes.last())
    }
}

/// The hash that the series with these label values is filed under: that of the label values,
/// written one after the other. Label values that read the same so share it.
#[verifier::opaque]
pub open spec fn label_hash(labels: Seq<Seq<char>>) -> u64 {
    fnv1a(vstd::utf8::encode_utf8(labels.flatten()))
}

/// The identifier of a metric without constant labels: the hash of its name and a separator.
#[verifier::opaque]
pub open spec fn metric_id(name: Seq<char>) -> u64 {
    fnv1a(vstd::utf8::encode_utf8(name).push(0xff))
}

} // verus!
