//! Which pod an EFA device is assigned to.
use vstd::prelude::*;

use crate::table::KeyTable;

verus! {

/// The pod that uses a device.
#[derive(Debug)]
pub struct EfaPodInfo {
    pub pod_name: String,
    pub pod_namespace: String,
}

impl DeepView for EfaPodInfo {
    type V = (Seq<char>, Seq<char>);

    open spec fn deep_view(&self) -> (Seq<char>, Seq<char>) {
        (self.pod_name@, self.pod_namespace@)
    }
}

/// The pod of each device that is assigned to one, by device name.
pub type EfaDeviceToPodMap = KeyTable<EfaPodInfo>;

/// Name and namespace of the pod of each device; `None` where there is no such record.
pub type PodsView = Option<Map<Seq<char>, (Seq<char>, Seq<char>)>>;

/// What a record of pods holds.
pub open spec fn pods_view(pods: Option<&EfaDeviceToPodMap>) -> PodsView {
    match pods {
        Some(map) => Some(map@),
        None => None,
    }
}

/// Name and namespace of the pod of `device`, each `unknown` where no pod is known.
pub open spec fn pod_of(pods: PodsView, device: Seq<char>) -> (Seq<char>, Seq<char>) {
    match pods {
        Some(map) => if map.contains_key(device) {
            map[device]
        } else {
            ("unknown"@, "unknown"@)
        },
        None => ("unknown"@, "unknown"@),
    }
}

/// A device that the record knows has the pod that is recorded for it; any other device, and every
/// device where there is no record, has a pod and a namespace called `unknown`.
pub proof fn law_pod_is_the_recorded_one(map: Map<Seq<char>, (Seq<char>, Seq<char>)>, device: Seq<
    char,
>)
    ensures
        map.contains_key(device) ==> pod_of(Some(map), device) == map[device],
        !map.contains_key(device) ==> pod_of(Some(map), device) == ("unknown"@, "unknown"@),
        pod_of(None, device) == ("unknown"@, "unknown"@),
{
}

/// A record of pods holds, for each device, first the name and then the namespace of its pod.
pub proof fn law_record_holds_name_and_namespace(pods: EfaDeviceToPodMap, info: EfaPodInfo)
    ensures
        pods_view(Some(&pods)) == Some(pods@),
        pods_view(None) is None,
        info.deep_view().0 == info.pod_name@,
        info.deep_view().1 == info.pod_namespace@,
{
}

} // verus!
