//! The compute platform that the agent runs on, and the labels that metrics carry there.
use vstd::prelude::*;

verus! {

/// Where the agent runs.
#[derive(Clone, Copy, Debug, PartialEq, Eq, Structural)]
pub enum ComputePlatform {
    /// An EC2 instance without Kubernetes.
    Ec2Plain,
    /// A node of an EKS cluster.
    Ec2K8sEks,
    /// A node of a self-managed Kubernetes cluster on EC2.
    Ec2K8sVanilla,
}

/// Names of the labels that every EFA metric carries on `platform`.
pub open spec fn label_names(platform: ComputePlatform) -> Seq<Seq<char>> {
    match platform {
        ComputePlatform::Ec2Plain => seq!["instance_id"@, "device"@, "port"@],
        ComputePlatform::Ec2K8sEks | ComputePlatform::Ec2K8sVanilla => seq![
            "instance_id"@,
            "device"@,
            "port"@,
            "node"@,
            "pod"@,
            "namespace"@,
        ],
    }
}

/// The family of EFA metrics.
pub struct EfaMetric;

impl EfaMetric {
    /// Names of the labels of an EFA metric, in the order in which their values are given.
    pub fn get_labels(compute_platform: &ComputePlatform) -> (labels: &'static [&'static str])
        ensures
            labels.deep_view() == label_names(*compute_platform),
    {
        match compute_platform {
            ComputePlatform::Ec2Plain => &["instance_id", "device", "port"],
            ComputePlatform::Ec2K8sEks | ComputePlatform::Ec2K8sVanilla => {
                &["instance_id", "device", "port", "node", "pod", "namespace"]
            },
        }
    }
}

} // verus!
