//! The aggregate metrics record and the merge policy that fills it from the
//! sidecar baseline and the platform sensor probe.
//!
//! Temperatures and usage percentages are carried as tenths of a unit
//! (degrees Celsius, percent), memory and disk sizes as whole bytes.

use vstd::prelude::*;

use crate::sensors::{
    spec_normalize, spec_find_temperature, normalize_temperature, find_temperature, SensorReading,
    keyword_views,
};
use crate::util::copy_bytes;

verus! {

/// Usage of one disk, as reported to callers.
pub struct DiskUsage {
    /// The disk's name, as raw bytes.
    pub name: Vec<u8>,
    /// The mount point, as raw bytes.
    pub mount_point: Vec<u8>,
    /// Total capacity in bytes.
    pub total_space: u64,
    /// Available capacity in bytes.
    pub available_space: u64,
    /// Used capacity in bytes.
    pub used_space: u64,
    /// Used share in tenths of a percent.
    pub usage_percent: i64,
}

/// The aggregate result of one metrics collection.
pub struct SystemMetrics {
    /// Aggregate CPU utilization, in tenths of a percent.
    pub cpu_usage: i64,
    /// CPU temperature in tenths of a degree Celsius, when any source supplied one.
    pub cpu_temperature: Option<i64>,
    /// GPU utilization in tenths of a percent, when any source supplied one.
    pub gpu_usage: Option<i64>,
    /// GPU temperature in tenths of a degree Celsius, when any source supplied one.
    pub gpu_temperature: Option<i64>,
    /// Total physical memory in bytes.
    pub memory_total: u64,
    /// Used physical memory in bytes.
    pub memory_used: u64,
    /// Per-disk usage records.
    pub disks: Vec<DiskUsage>,
}

/// The fields of a well-formed sidecar response body; every field is optional,
/// absent or null meaning "not measured by the sidecar".
pub struct SidecarReport {
    /// Aggregate CPU utilization, in tenths of a percent.
    pub cpu_usage: Option<i64>,
    /// CPU temperature in tenths of a degree Celsius.
    pub cpu_temperature: Option<i64>,
    /// GPU utilization in tenths of a percent.
    pub gpu_usage: Option<i64>,
    /// GPU temperature in tenths of a degree Celsius.
    pub gpu_temperature: Option<i64>,
    /// Total physical memory in bytes.
    pub memory_total: Option<u64>,
    /// Used physical memory in bytes.
    pub memory_used: Option<u64>,
    /// Per-disk usage records.
    pub disks: Option<Vec<DiskUsage>>,
}

/// The mathematical content of a disk record.
pub struct DiskUsageView {
    /// The disk's name bytes.
    pub name: Seq<u8>,
    /// The mount point bytes.
    pub mount_point: Seq<u8>,
    /// Total capacity in bytes.
    pub total_space: u64,
    /// Available capacity in bytes.
    pub available_space: u64,
    /// Used capacity in bytes.
    pub used_space: u64,
    /// Used share in tenths of a percent.
    pub usage_percent: i64,
}

impl View for DiskUsage {
    type V = DiskUsageView;

    open spec fn view(&self) -> DiskUsageView {
        DiskUsageView {
            name: self.name@,
            mount_point: self.mount_point@,
            total_space: self.total_space,
            available_space: self.available_space,
            used_space: self.used_space,
            usage_percent: self.usage_percent,
        }
    }
}

/// The mathematical content of a sidecar report.
pub struct SidecarReportView {
    /// Aggregate CPU utilization, in tenths of a percent.
    pub cpu_usage: Option<i64>,
    /// CPU temperature in tenths of a degree Celsius.
    pub cpu_temperature: Option<i64>,
    /// GPU utilization in tenths of a percent.
    pub gpu_usage: Option<i64>,
    /// GPU temperature in tenths of a degree Celsius.
    pub gpu_temperature: Option<i64>,
    /// Total physical memory in bytes.
    pub memory_total: Option<u64>,
    /// Used physical memory in bytes.
    pub memory_used: Option<u64>,
    /// Per-disk usage records.
    pub disks: Option<Seq<DiskUsageView>>,
}

impl View for SidecarReport {
    type V = SidecarReportView;

    open spec fn view(&self) -> SidecarReportView {
        SidecarReportView {
            cpu_usage: self.cpu_usage,
            cpu_temperature: self.cpu_temperature,
            gpu_usage: self.gpu_usage,
            gpu_temperature: self.gpu_temperature,
            memory_total: self.memory_total,
            memory_used: self.memory_used,
            disks: match self.disks {
                Some(ds) => Some(ds@.map_values(|d: DiskUsage| d@)),
                None => None,
            },
        }
    }
}

/// What one disk probe observed.
pub struct DiskProbe {
    /// The disk's name, as raw bytes.
    pub name: Vec<u8>,
    /// The mount point, as raw bytes.
    pub mount_point: Vec<u8>,
    /// Total capacity in bytes.
    pub total_space: u64,
    /// Available capacity in bytes.
    pub available_space: u64,
}

/// Everything the platform sensor probe observed for one collection:
/// plain values handed in by the caller, who performs the actual hardware
/// and OS queries.
pub struct ProbeSnapshot {
    /// Aggregate CPU utilization from the sampling window, in tenths of a percent.
    pub cpu_usage: i64,
    /// Total physical memory in bytes.
    pub memory_total: u64,
    /// Used physical memory in bytes.
    pub memory_used: u64,
    /// Labeled temperature readings from the generic sensor enumeration.
    pub components: Vec<SensorReading>,
    /// CPU temperature from the vendor-specific interface, when available.
    pub vendor_cpu_temperature: Option<i64>,
    /// GPU temperature from the vendor-specific interface, when available.
    pub vendor_gpu_temperature: Option<i64>,
    /// GPU utilization from the vendor-specific interface, in tenths of a percent.
    pub vendor_gpu_usage: Option<i64>,
    /// Raw per-disk capacities.
    pub disks: Vec<DiskProbe>,
}

/// The keyword list whose matches classify a sensor label as a CPU sensor:
/// the bytes of "cpu" and "package".
pub open spec fn cpu_keyword_seqs() -> Seq<Seq<u8>> {
    seq![
        seq![99u8, 112u8, 117u8],
        seq![112u8, 97u8, 99u8, 107u8, 97u8, 103u8, 101u8],
    ]
}

/// The keyword list whose matches classify a sensor label as a GPU sensor:
/// the bytes of "gpu" and "graphics".
pub open spec fn gpu_keyword_seqs() -> Seq<Seq<u8>> {
    seq![
        seq![103u8, 112u8, 117u8],
        seq![103u8, 114u8, 97u8, 112u8, 104u8, 105u8, 99u8, 115u8],
    ]
}

/// The CPU sensor keywords ("cpu", "package") as byte buffers.
pub fn cpu_keywords() -> (r: Vec<Vec<u8>>)
    ensures
        keyword_views(r@) =~= cpu_keyword_seqs(),
{
    let a: Vec<u8> = vec![99u8, 112u8, 117u8];
    let b: Vec<u8> = vec![112u8, 97u8, 99u8, 107u8, 97u8, 103u8, 101u8];
    let r: Vec<Vec<u8>> = vec![a, b];
    assert(keyword_views(r@) =~= cpu_keyword_seqs());
    r
}

/// The GPU sensor keywords ("gpu", "graphics") as byte buffers.
pub fn gpu_keywords() -> (r: Vec<Vec<u8>>)
    ensures
        keyword_views(r@) =~= gpu_keyword_seqs(),
{
    let a: Vec<u8> = vec![103u8, 112u8, 117u8];
    let b: Vec<u8> = vec![103u8, 114u8, 97u8, 112u8, 104u8, 105u8, 99u8, 115u8];
    let r: Vec<Vec<u8>> = vec![a, b];
    assert(keyword_views(r@) =~= gpu_keyword_seqs());
    r
}

/// The fixed priority order for a temperature field: the sidecar baseline
/// first, then the vendor-specific interface, then the generic keyword-matched
/// sensor scan; every source is validated, implausible readings are skipped.
pub open spec fn spec_pick_temperature(
    sidecar: Option<i64>,
    vendor: Option<i64>,
    generic: Option<i64>,
) -> Option<i64> {
    if spec_normalize(sidecar) is Some {
        spec_normalize(sidecar)
    } else if spec_normalize(vendor) is Some {
        spec_normalize(vendor)
    } else {
        spec_normalize(generic)
    }
}

/// GPU usage priority: the sidecar baseline first, then the vendor interface.
pub open spec fn spec_pick_gpu_usage(sidecar: Option<i64>, vendor: Option<i64>) -> Option<i64> {
    if sidecar is Some {
        sidecar
    } else {
        vendor
    }
}

/// Used share of a disk in tenths of a percent; zero for an empty capacity.
pub open spec fn spec_disk_percent(used: u64, total: u64) -> i64 {
    if total > 0 {
        ((used * 1000) / (total as int)) as i64
    } else {
        0
    }
}

/// The usage record computed for one probed disk.
pub open spec fn spec_disk_usage(d: DiskProbe) -> DiskUsage {
    let used = if d.available_space <= d.total_space {
        (d.total_space - d.available_space) as u64
    } else {
        0u64
    };
    DiskUsage {
        name: d.name,
        mount_point: d.mount_point,
        total_space: d.total_space,
        available_space: d.available_space,
        used_space: used,
        usage_percent: spec_disk_percent(used, d.total_space),
    }
}

/// Two disk records hold the same data.
pub open spec fn disk_usage_eq(a: DiskUsage, b: DiskUsage) -> bool {
    &&& a.name@ == b.name@
    &&& a.mount_point@ == b.mount_point@
    &&& a.total_space == b.total_space
    &&& a.available_space == b.available_space
    &&& a.used_space == b.used_space
    &&& a.usage_percent == b.usage_percent
}

/// Computes the usage record for one probed disk.
pub fn disk_usage_record(d: &DiskProbe) -> (r: DiskUsage)
    ensures
        disk_usage_eq(r, spec_disk_usage(*d)),
{
    let used: u64 = if d.available_space <= d.total_space {
        d.total_space - d.available_space
    } else {
        0
    };
    let percent: i64 = if d.total_space > 0 {
        let wide: u128 = (used as u128) * 1000;
        let q: u128 = wide / (d.total_space as u128);
        proof {
            vstd::arithmetic::div_mod::lemma_div_is_ordered(
                (used as int) * 1000,
                (d.total_space as int) * 1000,
                d.total_space as int,
            );
            vstd::arithmetic::div_mod::lemma_div_multiples_vanish(1000, d.total_space as int);
        }
        assert(q <= 1000);
        q as i64
    } else {
        0
    };
    assert(percent == spec_disk_percent(used, d.total_space));
    DiskUsage {
        name: copy_bytes(&d.name),
        mount_point: copy_bytes(&d.mount_point),
        total_space: d.total_space,
        available_space: d.available_space,
        used_space: used,
        usage_percent: percent,
    }
}

/// Merges the sidecar baseline with the probe snapshot into one metrics
/// record. CPU usage, memory, and the disk records always come from the
/// probe; each temperature field takes the first plausible value in the
/// fixed source order, and GPU usage takes the first available value.
pub fn get_system_metrics(report: &Option<SidecarReport>, probe: &ProbeSnapshot) -> (r:
    SystemMetrics)
    ensures
        r.cpu_usage == probe.cpu_usage,
        r.memory_total == probe.memory_total,
        r.memory_used == probe.memory_used,
        r.cpu_temperature == spec_pick_temperature(
            match *report {
                Some(rep) => rep.cpu_temperature,
                None => None,
            },
            probe.vendor_cpu_temperature,
            spec_find_temperature(probe.components@, cpu_keyword_seqs()),
        ),
        r.gpu_temperature == spec_pick_temperature(
            match *report {
                Some(rep) => rep.gpu_temperature,
                None => None,
            },
            probe.vendor_gpu_temperature,
            spec_find_temperature(probe.components@, gpu_keyword_seqs()),
        ),
        r.gpu_usage == spec_pick_gpu_usage(
            match *report {
                Some(rep) => rep.gpu_usage,
                None => None,
            },
            probe.vendor_gpu_usage,
        ),
        r.disks@.len() == probe.disks@.len(),
        forall|i: int|
            0 <= i < probe.disks@.len() ==> disk_usage_eq(
                r.disks@[i],
                spec_disk_usage(probe.disks@[i]),
            ),
{
    let sidecar_cpu_temp: Option<i64> = match report {
        Some(rep) => rep.cpu_temperature,
        None => None,
    };
    let sidecar_gpu_temp: Option<i64> = match report {
        Some(rep) => rep.gpu_temperature,
        None => None,
    };
    let sidecar_gpu_usage: Option<i64> = match report {
        Some(rep) => rep.gpu_usage,
        None => None,
    };

    let cpu_temperature = pick_temperature(
        sidecar_cpu_temp,
        probe.vendor_cpu_temperature,
        find_temperature(&probe.components, &cpu_keywords()),
    );
    let gpu_temperature = pick_temperature(
        sidecar_gpu_temp,
        probe.vendor_gpu_temperature,
        find_temperature(&probe.components, &gpu_keywords()),
    );
    let gpu_usage = match sidecar_gpu_usage {
        Some(u) => Some(u),
        None => probe.vendor_gpu_usage,
    };

    let mut disks: Vec<DiskUsage> = Vec::new();
    let mut i: usize = 0;
    while i < probe.disks.len()
        invariant
            i <= probe.disks@.len(),
            disks@.len() == i,
            forall|j: int|
                0 <= j < i ==> disk_usage_eq(disks@[j], spec_disk_usage(probe.disks@[j])),
        decreases probe.disks.len() - i,
    {
        disks.push(disk_usage_record(&probe.disks[i]));
        i += 1;
    }

    SystemMetrics {
        cpu_usage: probe.cpu_usage,
        cpu_temperature,
        gpu_usage,
        gpu_temperature,
        memory_total: probe.memory_total,
        memory_used: probe.memory_used,
        disks,
    }
}

/// Applies the fixed temperature priority order with validation of every source.
pub fn pick_temperature(sidecar: Option<i64>, vendor: Option<i64>, generic: Option<i64>) -> (r:
    Option<i64>)
    ensures
        r == spec_pick_temperature(sidecar, vendor, generic),
{
    match normalize_temperature(sidecar) {
        Some(t) => Some(t),
        None => match normalize_temperature(vendor) {
            Some(t) => Some(t),
            None => normalize_temperature(generic),
        },
    }
}

} // verus!
