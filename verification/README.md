# EFA metrics

Exports, for every port of every Elastic Fabric Adapter device, how much each hardware counter has
counted since the last scrape, as gauges of the `prometheus` crate.

- `src/` is the library, verified with Verus. It works on plain values: what one reading of
  `/sys/class/infiniband` found (`sysfs::SysfsSnapshot`), the instance ID, the node name and the
  pod of each device. `scrape.rs` holds the model that the contracts speak of; `laws.rs` and
  `provider_laws.rs` hold what is proved of it.
- `app/` reads sysfs and the instance metadata service and drives the library.
- `tests/` runs the library against the real `prometheus` crate.

The contracts of the functions marked `#[verifier::external_body]` in `gauges.rs` describe the
`prometheus` crate and are believed, not proved. That crate finds a series by the hash of its label
values written one after the other, so ports whose labels read the same in that form share a
series.
