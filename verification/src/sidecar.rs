//! The sidecar metrics endpoint's response format.
//!
//! The body is a JSON object with optional numeric fields — `cpu_usage`,
//! `cpu_temperature`, `gpu_usage`, `gpu_temperature`, `memory_total`,
//! `memory_used` — and an optional `disks` array of per-disk records; an
//! absent or null field means "not measured by the sidecar". Unknown fields
//! are passed over. A body this grammar rejects counts as malformed, and the
//! caller then treats the sidecar as absent for that collection.

use vstd::prelude::*;

use crate::json::{
    spec_skip_ws, spec_match_lit, spec_parse_number, spec_parse_string, spec_skip_value,
    spec_num_to_deci, spec_num_to_u64, lemma_skip_ws_bounds, lemma_parse_number_advances,
    lemma_parse_string_advances, lemma_skip_value_advances, skip_ws, parse_number, parse_string,
    skip_value, num_to_deci, num_to_u64,
};
use crate::metrics::{DiskUsage, DiskUsageView, SidecarReport, SidecarReportView};
use crate::util::bytes_eq;

verus! {

/// The largest body length accepted; anything longer is malformed.
pub const MAX_BODY_LEN: usize = 0x10_0000;

/// The bytes of "null".
pub open spec fn null_lit() -> Seq<u8> {
    seq![110u8, 117u8, 108u8, 108u8]
}

/// The bytes of "cpu_usage".
pub open spec fn key_cpu_usage() -> Seq<u8> {
    seq![99u8, 112u8, 117u8, 95u8, 117u8, 115u8, 97u8, 103u8, 101u8]
}

/// The bytes of "cpu_temperature".
pub open spec fn key_cpu_temperature() -> Seq<u8> {
    seq![99u8, 112u8, 117u8, 95u8, 116u8, 101u8, 109u8, 112u8, 101u8, 114u8, 97u8, 116u8, 117u8,
        114u8, 101u8]
}

/// The bytes of "gpu_usage".
pub open spec fn key_gpu_usage() -> Seq<u8> {
    seq![103u8, 112u8, 117u8, 95u8, 117u8, 115u8, 97u8, 103u8, 101u8]
}

/// The bytes of "gpu_temperature".
pub open spec fn key_gpu_temperature() -> Seq<u8> {
    seq![103u8, 112u8, 117u8, 95u8, 116u8, 101u8, 109u8, 112u8, 101u8, 114u8, 97u8, 116u8, 117u8,
        114u8, 101u8]
}

/// The bytes of "memory_total".
pub open spec fn key_memory_total() -> Seq<u8> {
    seq![109u8, 101u8, 109u8, 111u8, 114u8, 121u8, 95u8, 116u8, 111u8, 116u8, 97u8, 108u8]
}

/// The bytes of "memory_used".
pub open spec fn key_memory_used() -> Seq<u8> {
    seq![109u8, 101u8, 109u8, 111u8, 114u8, 121u8, 95u8, 117u8, 115u8, 101u8, 100u8]
}

/// The bytes of "disks".
pub open spec fn key_disks() -> Seq<u8> {
    seq![100u8, 105u8, 115u8, 107u8, 115u8]
}

/// The bytes of "name".
pub open spec fn key_name() -> Seq<u8> {
    seq![110u8, 97u8, 109u8, 101u8]
}

/// The bytes of "mount_point".
pub open spec fn key_mount_point() -> Seq<u8> {
    seq![109u8, 111u8, 117u8, 110u8, 116u8, 95u8, 112u8, 111u8, 105u8, 110u8, 116u8]
}

/// The bytes of "total_space".
pub open spec fn key_total_space() -> Seq<u8> {
    seq![116u8, 111u8, 116u8, 97u8, 108u8, 95u8, 115u8, 112u8, 97u8, 99u8, 101u8]
}

/// The bytes of "available_space".
pub open spec fn key_available_space() -> Seq<u8> {
    seq![97u8, 118u8, 97u8, 105u8, 108u8, 97u8, 98u8, 108u8, 101u8, 95u8, 115u8, 112u8, 97u8,
        99u8, 101u8]
}

/// The bytes of "used_space".
pub open spec fn key_used_space() -> Seq<u8> {
    seq![117u8, 115u8, 101u8, 100u8, 95u8, 115u8, 112u8, 97u8, 99u8, 101u8]
}

/// The bytes of "usage_percent".
pub open spec fn key_usage_percent() -> Seq<u8> {
    seq![117u8, 115u8, 97u8, 103u8, 101u8, 95u8, 112u8, 101u8, 114u8, 99u8, 101u8, 110u8, 116u8]
}

/// A tenths-valued field: null, or a number converted to tenths of a unit.
/// A value whose conversion overflows counts as not measured, like null.
pub open spec fn spec_field_deci(s: Seq<u8>, i: int) -> Option<(Option<i64>, int)> {
    if spec_match_lit(s, i, null_lit()) {
        Some((None, i + 4))
    } else {
        match spec_parse_number(s, i) {
            Some((neg, ds, sc, intg, end)) => Some((spec_num_to_deci(neg, ds, sc), end)),
            None => None,
        }
    }
}

/// A byte-count field: null, or a number that must be a plain unsigned
/// integer fitting 64 bits — any other shape makes the body malformed.
pub open spec fn spec_field_u64(s: Seq<u8>, i: int) -> Option<(Option<u64>, int)> {
    if spec_match_lit(s, i, null_lit()) {
        Some((None, i + 4))
    } else {
        match spec_parse_number(s, i) {
            Some((neg, ds, sc, intg, end)) => match spec_num_to_u64(neg, ds, intg) {
                Some(v) => Some((Some(v), end)),
                None => None,
            },
            None => None,
        }
    }
}

pub proof fn lemma_field_deci_advances(s: Seq<u8>, i: int)
    requires
        0 <= i <= s.len(),
    ensures
        spec_field_deci(s, i) matches Some((v, end)) ==> i < end <= s.len(),
        spec_field_u64(s, i) matches Some((v, end)) ==> i < end <= s.len(),
{
    lemma_parse_number_advances(s, i);
}

/// Which fields of one disk record have been read so far.
pub struct DiskSeen {
    /// "name" was read.
    pub name: bool,
    /// "mount_point" was read.
    pub mount_point: bool,
    /// "total_space" was read.
    pub total_space: bool,
    /// "available_space" was read.
    pub available_space: bool,
    /// "used_space" was read.
    pub used_space: bool,
    /// "usage_percent" was read.
    pub usage_percent: bool,
}

/// No disk field has been read yet.
pub open spec fn disk_seen_none() -> DiskSeen {
    DiskSeen {
        name: false,
        mount_point: false,
        total_space: false,
        available_space: false,
        used_space: false,
        usage_percent: false,
    }
}

/// Every disk field has been read: a disk record requires all of them.
pub open spec fn disk_seen_all(seen: DiskSeen) -> bool {
    seen.name && seen.mount_point && seen.total_space && seen.available_space && seen.used_space
        && seen.usage_percent
}

/// A disk record with nothing filled in yet.
pub open spec fn disk_view_empty() -> DiskUsageView {
    DiskUsageView {
        name: Seq::empty(),
        mount_point: Seq::empty(),
        total_space: 0,
        available_space: 0,
        used_space: 0,
        usage_percent: 0,
    }
}

/// Reads one member of a disk record, the key already parsed and the
/// position standing on the value. A known key repeated, a null or
/// ill-shaped value for a required field, and an unreadable value all make
/// the body malformed; an unknown key's value is passed over.
pub open spec fn spec_disk_field(
    s: Seq<u8>,
    v0: int,
    key: Seq<u8>,
    acc: DiskUsageView,
    seen: DiskSeen,
) -> Option<(DiskUsageView, DiskSeen, int)> {
    if key == key_name() {
        if seen.name {
            None
        } else {
            match spec_parse_string(s, v0) {
                Some((content, e)) => Some(
                    (DiskUsageView { name: content, ..acc }, DiskSeen { name: true, ..seen }, e),
                ),
                None => None,
            }
        }
    } else if key == key_mount_point() {
        if seen.mount_point {
            None
        } else {
            match spec_parse_string(s, v0) {
                Some((content, e)) => Some(
                    (
                        DiskUsageView { mount_point: content, ..acc },
                        DiskSeen { mount_point: true, ..seen },
                        e,
                    ),
                ),
                None => None,
            }
        }
    } else if key == key_total_space() {
        if seen.total_space {
            None
        } else {
            match spec_field_u64(s, v0) {
                Some((Some(v), e)) => Some(
                    (
                        DiskUsageView { total_space: v, ..acc },
                        DiskSeen { total_space: true, ..seen },
                        e,
                    ),
                ),
                Some((None, e)) => None,
                None => None,
            }
        }
    } else if key == key_available_space() {
        if seen.available_space {
            None
        } else {
            match spec_field_u64(s, v0) {
                Some((Some(v), e)) => Some(
                    (
                        DiskUsageView { available_space: v, ..acc },
                        DiskSeen { available_space: true, ..seen },
                        e,
                    ),
                ),
                Some((None, e)) => None,
                None => None,
            }
        }
    } else if key == key_used_space() {
        if seen.used_space {
            None
        } else {
            match spec_field_u64(s, v0) {
                Some((Some(v), e)) => Some(
                    (
                        DiskUsageView { used_space: v, ..acc },
                        DiskSeen { used_space: true, ..seen },
                        e,
                    ),
                ),
                Some((None, e)) => None,
                None => None,
            }
        }
    } else if key == key_usage_percent() {
        if seen.usage_percent {
            None
        } else {
            match spec_field_deci(s, v0) {
                Some((Some(v), e)) => Some(
                    (
                        DiskUsageView { usage_percent: v, ..acc },
                        DiskSeen { usage_percent: true, ..seen },
                        e,
                    ),
                ),
                Some((None, e)) => None,
                None => None,
            }
        }
    } else {
        match spec_skip_value(s, v0) {
            Some(e) => Some((acc, seen, e)),
            None => None,
        }
    }
}

pub proof fn lemma_disk_field_advances(
    s: Seq<u8>,
    v0: int,
    key: Seq<u8>,
    acc: DiskUsageView,
    seen: DiskSeen,
)
    requires
        0 <= v0 <= s.len(),
    ensures
        spec_disk_field(s, v0, key, acc, seen) matches Some((a, sn, end)) ==> v0 < end <= s.len(),
{
    lemma_parse_string_advances(s, v0);
    lemma_field_deci_advances(s, v0);
    lemma_skip_value_advances(s, v0);
}

/// Reads the members of one disk record, starting just after the opening
/// brace or just after a comma, and ends just after the closing brace.
pub open spec fn spec_disk_members(
    s: Seq<u8>,
    i: int,
    first: bool,
    acc: DiskUsageView,
    seen: DiskSeen,
) -> Option<(DiskUsageView, DiskSeen, int)>
    decreases s.len() - i,
    when 0 <= i <= s.len()
    via spec_disk_members_decreases
{
    let j = spec_skip_ws(s, i);
    if j >= s.len() {
        None
    } else if s[j] == 125 {
        if first {
            Some((acc, seen, j + 1))
        } else {
            None
        }
    } else {
        match spec_parse_string(s, j) {
            Some((key, k)) => {
                let c = spec_skip_ws(s, k);
                if !(c < s.len() && s[c] == 58) {
                    None
                } else {
                    let v0 = spec_skip_ws(s, c + 1);
                    match spec_disk_field(s, v0, key, acc, seen) {
                        Some((acc2, seen2, end)) => {
                            let t = spec_skip_ws(s, end);
                            if t < s.len() && s[t] == 44 {
                                spec_disk_members(s, t + 1, false, acc2, seen2)
                            } else if t < s.len() && s[t] == 125 {
                                Some((acc2, seen2, t + 1))
                            } else {
                                None
                            }
                        },
                        None => None,
                    }
                }
            },
            None => None,
        }
    }
}

#[via_fn]
proof fn spec_disk_members_decreases(
    s: Seq<u8>,
    i: int,
    first: bool,
    acc: DiskUsageView,
    seen: DiskSeen,
) {
    if 0 <= i <= s.len() {
        lemma_skip_ws_bounds(s, i);
        let j = spec_skip_ws(s, i);
        if j < s.len() && s[j] != 125 {
            lemma_parse_string_advances(s, j);
            if let Some((key, k)) = spec_parse_string(s, j) {
                lemma_skip_ws_bounds(s, k);
                let c = spec_skip_ws(s, k);
                if c < s.len() && s[c] == 58 {
                    lemma_skip_ws_bounds(s, c + 1);
                    let v0 = spec_skip_ws(s, c + 1);
                    lemma_disk_field_advances(s, v0, key, acc, seen);
                    if let Some((acc2, seen2, end)) = spec_disk_field(s, v0, key, acc, seen) {
                        lemma_skip_ws_bounds(s, end);
                    }
                }
            }
        }
    }
}

pub proof fn lemma_disk_members_advances(
    s: Seq<u8>,
    i: int,
    first: bool,
    acc: DiskUsageView,
    seen: DiskSeen,
)
    requires
        0 <= i <= s.len(),
    ensures
        spec_disk_members(s, i, first, acc, seen) matches Some((a, sn, end)) ==> i < end <= s.len(),
    decreases s.len() - i,
{
    lemma_skip_ws_bounds(s, i);
    let j = spec_skip_ws(s, i);
    if j < s.len() && s[j] != 125 {
        lemma_parse_string_advances(s, j);
        if let Some((key, k)) = spec_parse_string(s, j) {
            lemma_skip_ws_bounds(s, k);
            let c = spec_skip_ws(s, k);
            if c < s.len() && s[c] == 58 {
                lemma_skip_ws_bounds(s, c + 1);
                let v0 = spec_skip_ws(s, c + 1);
                lemma_disk_field_advances(s, v0, key, acc, seen);
                if let Some((acc2, seen2, end)) = spec_disk_field(s, v0, key, acc, seen) {
                    lemma_skip_ws_bounds(s, end);
                    let t = spec_skip_ws(s, end);
                    if t < s.len() && s[t] == 44 {
                        lemma_disk_members_advances(s, t + 1, false, acc2, seen2);
                    }
                }
            }
        }
    }
}

/// Reads the elements of the disks array, starting just after the opening
/// bracket or just after a comma, and ends just after the closing bracket.
/// Every element must be a complete disk record.
pub open spec fn spec_disks_elems(
    s: Seq<u8>,
    i: int,
    first: bool,
    acc: Seq<DiskUsageView>,
) -> Option<(Seq<DiskUsageView>, int)>
    decreases s.len() - i,
    when 0 <= i <= s.len()
    via spec_disks_elems_decreases
{
    let j = spec_skip_ws(s, i);
    if j >= s.len() {
        None
    } else if s[j] == 93 {
        if first {
            Some((acc, j + 1))
        } else {
            None
        }
    } else if s[j] == 123 {
        match spec_disk_members(s, j + 1, true, disk_view_empty(), disk_seen_none()) {
            Some((d, seen, end)) => {
                if disk_seen_all(seen) {
                    let t = spec_skip_ws(s, end);
                    if t < s.len() && s[t] == 44 {
                        spec_disks_elems(s, t + 1, false, acc.push(d))
                    } else if t < s.len() && s[t] == 93 {
                        Some((acc.push(d), t + 1))
                    } else {
                        None
                    }
                } else {
                    None
                }
            },
            None => None,
        }
    } else {
        None
    }
}

#[via_fn]
proof fn spec_disks_elems_decreases(s: Seq<u8>, i: int, first: bool, acc: Seq<DiskUsageView>) {
    if 0 <= i <= s.len() {
        lemma_skip_ws_bounds(s, i);
        let j = spec_skip_ws(s, i);
        if j < s.len() && s[j] == 123 {
            lemma_disk_members_advances(s, j + 1, true, disk_view_empty(), disk_seen_none());
            if let Some((d, seen, end)) = spec_disk_members(
                s,
                j + 1,
                true,
                disk_view_empty(),
                disk_seen_none(),
            ) {
                lemma_skip_ws_bounds(s, end);
            }
        }
    }
}

pub proof fn lemma_disks_elems_advances(s: Seq<u8>, i: int, first: bool, acc: Seq<DiskUsageView>)
    requires
        0 <= i <= s.len(),
    ensures
        spec_disks_elems(s, i, first, acc) matches Some((ds, end)) ==> i < end <= s.len(),
    decreases s.len() - i,
{
    lemma_skip_ws_bounds(s, i);
    let j = spec_skip_ws(s, i);
    if j < s.len() && s[j] == 123 {
        lemma_disk_members_advances(s, j + 1, true, disk_view_empty(), disk_seen_none());
        if let Some((d, seen, end)) = spec_disk_members(
            s,
            j + 1,
            true,
            disk_view_empty(),
            disk_seen_none(),
        ) {
            lemma_skip_ws_bounds(s, end);
            let t = spec_skip_ws(s, end);
            if t < s.len() && s[t] == 44 {
                lemma_disks_elems_advances(s, t + 1, false, acc.push(d));
            }
        }
    }
}

/// Which fields of the report have been read so far.
pub struct ReportSeen {
    /// "cpu_usage" was read.
    pub cpu_usage: bool,
    /// "cpu_temperature" was read.
    pub cpu_temperature: bool,
    /// "gpu_usage" was read.
    pub gpu_usage: bool,
    /// "gpu_temperature" was read.
    pub gpu_temperature: bool,
    /// "memory_total" was read.
    pub memory_total: bool,
    /// "memory_used" was read.
    pub memory_used: bool,
    /// "disks" was read.
    pub disks: bool,
}

/// No report field has been read yet.
pub open spec fn report_seen_none() -> ReportSeen {
    ReportSeen {
        cpu_usage: false,
        cpu_temperature: false,
        gpu_usage: false,
        gpu_temperature: false,
        memory_total: false,
        memory_used: false,
        disks: false,
    }
}

/// A report with nothing measured.
pub open spec fn report_view_empty() -> SidecarReportView {
    SidecarReportView {
        cpu_usage: None,
        cpu_temperature: None,
        gpu_usage: None,
        gpu_temperature: None,
        memory_total: None,
        memory_used: None,
        disks: None,
    }
}

/// Reads one member of the report, the key already parsed and the position
/// standing on the value. Every known field is optional — null leaves it
/// unmeasured — but a repeated known key or an unreadable value makes the
/// body malformed; an unknown key's value is passed over.
pub open spec fn spec_report_field(
    s: Seq<u8>,
    v0: int,
    key: Seq<u8>,
    acc: SidecarReportView,
    seen: ReportSeen,
) -> Option<(SidecarReportView, ReportSeen, int)> {
    if key == key_cpu_usage() {
        if seen.cpu_usage {
            None
        } else {
            match spec_field_deci(s, v0) {
                Some((v, e)) => Some(
                    (
                        SidecarReportView { cpu_usage: v, ..acc },
                        ReportSeen { cpu_usage: true, ..seen },
                        e,
                    ),
                ),
                None => None,
            }
        }
    } else if key == key_cpu_temperature() {
        if seen.cpu_temperature {
            None
        } else {
            match spec_field_deci(s, v0) {
                Some((v, e)) => Some(
                    (
                        SidecarReportView { cpu_temperature: v, ..acc },
                        ReportSeen { cpu_temperature: true, ..seen },
                        e,
                    ),
                ),
                None => None,
            }
        }
    } else if key == key_gpu_usage() {
        if seen.gpu_usage {
            None
        } else {
            match spec_field_deci(s, v0) {
                Some((v, e)) => Some(
                    (
                        SidecarReportView { gpu_usage: v, ..acc },
                        ReportSeen { gpu_usage: true, ..seen },
                        e,
                    ),
                ),
                None => None,
            }
        }
    } else if key == key_gpu_temperature() {
        if seen.gpu_temperature {
            None
        } else {
            match spec_field_deci(s, v0) {
                Some((v, e)) => Some(
                    (
                        SidecarReportView { gpu_temperature: v, ..acc },
                        ReportSeen { gpu_temperature: true, ..seen },
                        e,
                    ),
                ),
                None => None,
            }
        }
    } else if key == key_memory_total() {
        if seen.memory_total {
            None
        } else {
            match spec_field_u64(s, v0) {
                Some((v, e)) => Some(
                    (
                        SidecarReportView { memory_total: v, ..acc },
                        ReportSeen { memory_total: true, ..seen },
                        e,
                    ),
                ),
                None => None,
            }
        }
    } else if key == key_memory_used() {
        if seen.memory_used {
            None
        } else {
            match spec_field_u64(s, v0) {
                Some((v, e)) => Some(
                    (
                        SidecarReportView { memory_used: v, ..acc },
                        ReportSeen { memory_used: true, ..seen },
                        e,
                    ),
                ),
                None => None,
            }
        }
    } else if key == key_disks() {
        if seen.disks {
            None
        } else if spec_match_lit(s, v0, null_lit()) {
            Some((SidecarReportView { disks: None, ..acc }, ReportSeen { disks: true, ..seen }, v0 + 4))
        } else if 0 <= v0 < s.len() && s[v0] == 91 {
            match spec_disks_elems(s, v0 + 1, true, Seq::empty()) {
                Some((ds, e)) => Some(
                    (
                        SidecarReportView { disks: Some(ds), ..acc },
                        ReportSeen { disks: true, ..seen },
                        e,
                    ),
                ),
                None => None,
            }
        } else {
            None
        }
    } else {
        match spec_skip_value(s, v0) {
            Some(e) => Some((acc, seen, e)),
            None => None,
        }
    }
}

pub proof fn lemma_report_field_advances(
    s: Seq<u8>,
    v0: int,
    key: Seq<u8>,
    acc: SidecarReportView,
    seen: ReportSeen,
)
    requires
        0 <= v0 <= s.len(),
    ensures
        spec_report_field(s, v0, key, acc, seen) matches Some((a, sn, end)) ==> v0 < end <= s.len(),
{
    lemma_field_deci_advances(s, v0);
    lemma_skip_value_advances(s, v0);
    if v0 + 1 <= s.len() {
        lemma_disks_elems_advances(s, v0 + 1, true, Seq::empty());
    }
}

/// Reads the members of the report object, starting just after the opening
/// brace or just after a comma, and ends just after the closing brace.
pub open spec fn spec_report_members(
    s: Seq<u8>,
    i: int,
    first: bool,
    acc: SidecarReportView,
    seen: ReportSeen,
) -> Option<(SidecarReportView, ReportSeen, int)>
    decreases s.len() - i,
    when 0 <= i <= s.len()
    via spec_report_members_decreases
{
    let j = spec_skip_ws(s, i);
    if j >= s.len() {
        None
    } else if s[j] == 125 {
        if first {
            Some((acc, seen, j + 1))
        } else {
            None
        }
    } else {
        match spec_parse_string(s, j) {
            Some((key, k)) => {
                let c = spec_skip_ws(s, k);
                if !(c < s.len() && s[c] == 58) {
                    None
                } else {
                    let v0 = spec_skip_ws(s, c + 1);
                    match spec_report_field(s, v0, key, acc, seen) {
                        Some((acc2, seen2, end)) => {
                            let t = spec_skip_ws(s, end);
                            if t < s.len() && s[t] == 44 {
                                spec_report_members(s, t + 1, false, acc2, seen2)
                            } else if t < s.len() && s[t] == 125 {
                                Some((acc2, seen2, t + 1))
                            } else {
                                None
                            }
                        },
                        None => None,
                    }
                }
            },
            None => None,
        }
    }
}

#[via_fn]
proof fn spec_report_members_decreases(
    s: Seq<u8>,
    i: int,
    first: bool,
    acc: SidecarReportView,
    seen: ReportSeen,
) {
    if 0 <= i <= s.len() {
        lemma_skip_ws_bounds(s, i);
        let j = spec_skip_ws(s, i);
        if j < s.len() && s[j] != 125 {
            lemma_parse_string_advances(s, j);
            if let Some((key, k)) = spec_parse_string(s, j) {
                lemma_skip_ws_bounds(s, k);
                let c = spec_skip_ws(s, k);
                if c < s.len() && s[c] == 58 {
                    lemma_skip_ws_bounds(s, c + 1);
                    let v0 = spec_skip_ws(s, c + 1);
                    lemma_report_field_advances(s, v0, key, acc, seen);
                    if let Some((acc2, seen2, end)) = spec_report_field(s, v0, key, acc, seen) {
                        lemma_skip_ws_bounds(s, end);
                    }
                }
            }
        }
    }
}

/// The report a body parses to, when it is well formed: optional leading
/// and trailing whitespace around one report object and nothing else, and
/// the whole body within the accepted length.
pub open spec fn spec_parse_sidecar_report(s: Seq<u8>) -> Option<SidecarReportView> {
    if s.len() > MAX_BODY_LEN {
        None
    } else {
        let i = spec_skip_ws(s, 0);
        if i < s.len() && s[i] == 123 {
            match spec_report_members(s, i + 1, true, report_view_empty(), report_seen_none()) {
                Some((rep, seen, end)) => {
                    let t = spec_skip_ws(s, end);
                    if t == s.len() {
                        Some(rep)
                    } else {
                        None
                    }
                },
                None => None,
            }
        } else {
            None
        }
    }
}

/// Whether "null" stands at `i`.
fn match_null(s: &[u8], i: usize) -> (r: bool)
    requires
        i <= s@.len(),
        s@.len() <= MAX_BODY_LEN,
    ensures
        r == spec_match_lit(s@, i as int, null_lit()),
{
    if i + 4 <= s.len() && s[i] == 110 && s[i + 1] == 117 && s[i + 2] == 108 && s[i + 3] == 108 {
        proof {
            assert(s@.subrange(i as int, i + 4) =~= null_lit());
        }
        true
    } else {
        proof {
            if i + 4 <= s@.len() {
                assert(s@.subrange(i as int, i + 4)[0] == s@[i as int]);
                assert(s@.subrange(i as int, i + 4)[1] == s@[i + 1]);
                assert(s@.subrange(i as int, i + 4)[2] == s@[i + 2]);
                assert(s@.subrange(i as int, i + 4)[3] == s@[i + 3]);
            }
        }
        false
    }
}

/// Reads a tenths-valued field: null, or a number converted to tenths.
fn field_deci(s: &[u8], i: usize) -> (r: Option<(Option<i64>, usize)>)
    requires
        i <= s@.len(),
        s@.len() <= MAX_BODY_LEN,
    ensures
        match spec_field_deci(s@, i as int) {
            Some((v, end)) => r == Some((v, end as usize)),
            None => r is None,
        },
{
    if match_null(s, i) {
        return Some((None, i + 4));
    }
    proof {
        lemma_parse_number_advances(s@, i as int);
    }
    match parse_number(s, i) {
        Some((n, end)) => Some((num_to_deci(&n), end)),
        None => None,
    }
}

/// Reads a byte-count field: null, or a plain unsigned integer.
fn field_u64(s: &[u8], i: usize) -> (r: Option<(Option<u64>, usize)>)
    requires
        i <= s@.len(),
        s@.len() <= MAX_BODY_LEN,
    ensures
        match spec_field_u64(s@, i as int) {
            Some((v, end)) => r == Some((v, end as usize)),
            None => r is None,
        },
{
    if match_null(s, i) {
        return Some((None, i + 4));
    }
    proof {
        lemma_parse_number_advances(s@, i as int);
    }
    match parse_number(s, i) {
        Some((n, end)) => match num_to_u64(&n) {
            Some(v) => Some((Some(v), end)),
            None => None,
        },
        None => None,
    }
}

/// Reads one member of a disk record from the value position.
fn parse_disk_field(
    s: &[u8],
    v0: usize,
    key: &Vec<u8>,
    acc: DiskUsage,
    seen: DiskSeen,
) -> (r: Option<(DiskUsage, DiskSeen, usize)>)
    requires
        v0 <= s@.len(),
        s@.len() <= MAX_BODY_LEN,
    ensures
        match spec_disk_field(s@, v0 as int, key@, acc@, seen) {
            Some((a, sn, end)) => r matches Some((ra, rsn, rj)) && ra@ == a && rsn == sn && rj
                == end as usize,
            None => r is None,
        },
{
    let k_name: Vec<u8> = vec![110u8, 97u8, 109u8, 101u8];
    assert(k_name@ =~= key_name());
    let k_mount: Vec<u8> = vec![109u8, 111u8, 117u8, 110u8, 116u8, 95u8, 112u8, 111u8, 105u8,
        110u8, 116u8];
    assert(k_mount@ =~= key_mount_point());
    let k_total: Vec<u8> = vec![116u8, 111u8, 116u8, 97u8, 108u8, 95u8, 115u8, 112u8, 97u8, 99u8,
        101u8];
    assert(k_total@ =~= key_total_space());
    let k_avail: Vec<u8> = vec![97u8, 118u8, 97u8, 105u8, 108u8, 97u8, 98u8, 108u8, 101u8, 95u8,
        115u8, 112u8, 97u8, 99u8, 101u8];
    assert(k_avail@ =~= key_available_space());
    let k_used: Vec<u8> = vec![117u8, 115u8, 101u8, 100u8, 95u8, 115u8, 112u8, 97u8, 99u8, 101u8];
    assert(k_used@ =~= key_used_space());
    let k_pct: Vec<u8> = vec![117u8, 115u8, 97u8, 103u8, 101u8, 95u8, 112u8, 101u8, 114u8, 99u8,
        101u8, 110u8, 116u8];
    assert(k_pct@ =~= key_usage_percent());

    if bytes_eq(key, &k_name) {
        if seen.name {
            return None;
        }
        match parse_string(s, v0) {
            Some((content, e)) => Some(
                (DiskUsage { name: content, ..acc }, DiskSeen { name: true, ..seen }, e),
            ),
            None => None,
        }
    } else if bytes_eq(key, &k_mount) {
        if seen.mount_point {
            return None;
        }
        match parse_string(s, v0) {
            Some((content, e)) => Some(
                (
                    DiskUsage { mount_point: content, ..acc },
                    DiskSeen { mount_point: true, ..seen },
                    e,
                ),
            ),
            None => None,
        }
    } else if bytes_eq(key, &k_total) {
        if seen.total_space {
            return None;
        }
        match field_u64(s, v0) {
            Some((Some(v), e)) => Some(
                (DiskUsage { total_space: v, ..acc }, DiskSeen { total_space: true, ..seen }, e),
            ),
            Some((None, e)) => None,
            None => None,
        }
    } else if bytes_eq(key, &k_avail) {
        if seen.available_space {
            return None;
        }
        match field_u64(s, v0) {
            Some((Some(v), e)) => Some(
                (
                    DiskUsage { available_space: v, ..acc },
                    DiskSeen { available_space: true, ..seen },
                    e,
                ),
            ),
            Some((None, e)) => None,
            None => None,
        }
    } else if bytes_eq(key, &k_used) {
        if seen.used_space {
            return None;
        }
        match field_u64(s, v0) {
            Some((Some(v), e)) => Some(
                (DiskUsage { used_space: v, ..acc }, DiskSeen { used_space: true, ..seen }, e),
            ),
            Some((None, e)) => None,
            None => None,
        }
    } else if bytes_eq(key, &k_pct) {
        if seen.usage_percent {
            return None;
        }
        match field_deci(s, v0) {
            Some((Some(v), e)) => Some(
                (
                    DiskUsage { usage_percent: v, ..acc },
                    DiskSeen { usage_percent: true, ..seen },
                    e,
                ),
            ),
            Some((None, e)) => None,
            None => None,
        }
    } else {
        match skip_value(s, v0) {
            Some(e) => Some((acc, seen, e)),
            None => None,
        }
    }
}

/// Reads one whole disk record, starting just after the opening brace.
fn parse_disk(s: &[u8], i: usize) -> (r: Option<(DiskUsage, DiskSeen, usize)>)
    requires
        i <= s@.len(),
        s@.len() <= MAX_BODY_LEN,
    ensures
        match spec_disk_members(s@, i as int, true, disk_view_empty(), disk_seen_none()) {
            Some((a, sn, end)) => r matches Some((ra, rsn, rj)) && ra@ == a && rsn == sn && rj
                == end as usize,
            None => r is None,
        },
{
    let mut acc = DiskUsage {
        name: Vec::new(),
        mount_point: Vec::new(),
        total_space: 0,
        available_space: 0,
        used_space: 0,
        usage_percent: 0,
    };
    let mut seen = DiskSeen {
        name: false,
        mount_point: false,
        total_space: false,
        available_space: false,
        used_space: false,
        usage_percent: false,
    };
    assert(acc@ == disk_view_empty());
    assert(seen == disk_seen_none());
    let mut cur = i;
    let mut first = true;
    loop
        invariant
            cur <= s@.len(),
            s@.len() <= MAX_BODY_LEN,
            spec_disk_members(s@, i as int, true, disk_view_empty(), disk_seen_none())
                == spec_disk_members(s@, cur as int, first, acc@, seen),
        decreases s@.len() - cur,
    {
        let j = skip_ws(s, cur);
        if j >= s.len() {
            return None;
        }
        if s[j] == 125 {
            if first {
                return Some((acc, seen, j + 1));
            }
            return None;
        }
        let (key, k) = match parse_string(s, j) {
            Some(p) => p,
            None => {
                return None;
            },
        };
        proof {
            lemma_parse_string_advances(s@, j as int);
        }
        let c = skip_ws(s, k);
        if !(c < s.len() && s[c] == 58) {
            return None;
        }
        let v0 = skip_ws(s, c + 1);
        let ghost acc0 = acc@;
        let ghost seen0 = seen;
        let (acc2, seen2, end) = match parse_disk_field(s, v0, &key, acc, seen) {
            Some(p) => p,
            None => {
                return None;
            },
        };
        proof {
            lemma_disk_field_advances(s@, v0 as int, key@, acc0, seen0);
        }
        let t = skip_ws(s, end);
        if t < s.len() && s[t] == 44 {
            acc = acc2;
            seen = seen2;
            cur = t + 1;
            first = false;
        } else if t < s.len() && s[t] == 125 {
            return Some((acc2, seen2, t + 1));
        } else {
            return None;
        }
    }
}

/// The views of a list of disk records.
pub open spec fn disk_views(ds: Seq<DiskUsage>) -> Seq<DiskUsageView> {
    ds.map_values(|d: DiskUsage| d@)
}

/// Reads the whole disks array, starting just after the opening bracket.
fn parse_disks(s: &[u8], i: usize) -> (r: Option<(Vec<DiskUsage>, usize)>)
    requires
        i <= s@.len(),
        s@.len() <= MAX_BODY_LEN,
    ensures
        match spec_disks_elems(s@, i as int, true, Seq::empty()) {
            Some((ds, end)) => r matches Some((v, j)) && disk_views(v@) == ds && j == end as usize,
            None => r is None,
        },
{
    let mut out: Vec<DiskUsage> = Vec::new();
    let mut cur = i;
    let mut first = true;
    assert(disk_views(out@) =~= Seq::<DiskUsageView>::empty());
    loop
        invariant
            cur <= s@.len(),
            s@.len() <= MAX_BODY_LEN,
            spec_disks_elems(s@, i as int, true, Seq::empty()) == spec_disks_elems(
                s@,
                cur as int,
                first,
                disk_views(out@),
            ),
        decreases s@.len() - cur,
    {
        let j = skip_ws(s, cur);
        if j >= s.len() {
            return None;
        }
        if s[j] == 93 {
            if first {
                return Some((out, j + 1));
            }
            return None;
        }
        if s[j] != 123 {
            return None;
        }
        let (d, seen, end) = match parse_disk(s, j + 1) {
            Some(p) => p,
            None => {
                return None;
            },
        };
        proof {
            lemma_disk_members_advances(s@, j + 1, true, disk_view_empty(), disk_seen_none());
        }
        if !(seen.name && seen.mount_point && seen.total_space && seen.available_space
            && seen.used_space && seen.usage_percent) {
            return None;
        }
        let t = skip_ws(s, end);
        let ghost prev = disk_views(out@);
        let ghost dv = d@;
        if t < s.len() && s[t] == 44 {
            out.push(d);
            proof {
                assert(disk_views(out@) =~= prev.push(dv));
            }
            cur = t + 1;
            first = false;
        } else if t < s.len() && s[t] == 93 {
            out.push(d);
            proof {
                assert(disk_views(out@) =~= prev.push(dv));
            }
            return Some((out, t + 1));
        } else {
            return None;
        }
    }
}

/// Reads one member of the report from the value position.
fn parse_report_field(
    s: &[u8],
    v0: usize,
    key: &Vec<u8>,
    acc: SidecarReport,
    seen: ReportSeen,
) -> (r: Option<(SidecarReport, ReportSeen, usize)>)
    requires
        v0 <= s@.len(),
        s@.len() <= MAX_BODY_LEN,
    ensures
        match spec_report_field(s@, v0 as int, key@, acc@, seen) {
            Some((a, sn, end)) => r matches Some((ra, rsn, rj)) && ra@ == a && rsn == sn && rj
                == end as usize,
            None => r is None,
        },
{
    let k_cpu_u: Vec<u8> = vec![99u8, 112u8, 117u8, 95u8, 117u8, 115u8, 97u8, 103u8, 101u8];
    assert(k_cpu_u@ =~= key_cpu_usage());
    let k_cpu_t: Vec<u8> = vec![99u8, 112u8, 117u8, 95u8, 116u8, 101u8, 109u8, 112u8, 101u8,
        114u8, 97u8, 116u8, 117u8, 114u8, 101u8];
    assert(k_cpu_t@ =~= key_cpu_temperature());
    let k_gpu_u: Vec<u8> = vec![103u8, 112u8, 117u8, 95u8, 117u8, 115u8, 97u8, 103u8, 101u8];
    assert(k_gpu_u@ =~= key_gpu_usage());
    let k_gpu_t: Vec<u8> = vec![103u8, 112u8, 117u8, 95u8, 116u8, 101u8, 109u8, 112u8, 101u8,
        114u8, 97u8, 116u8, 117u8, 114u8, 101u8];
    assert(k_gpu_t@ =~= key_gpu_temperature());
    let k_mem_t: Vec<u8> = vec![109u8, 101u8, 109u8, 111u8, 114u8, 121u8, 95u8, 116u8, 111u8,
        116u8, 97u8, 108u8];
    assert(k_mem_t@ =~= key_memory_total());
    let k_mem_u: Vec<u8> = vec![109u8, 101u8, 109u8, 111u8, 114u8, 121u8, 95u8, 117u8, 115u8,
        101u8, 100u8];
    assert(k_mem_u@ =~= key_memory_used());
    let k_disks: Vec<u8> = vec![100u8, 105u8, 115u8, 107u8, 115u8];
    assert(k_disks@ =~= key_disks());

    if bytes_eq(key, &k_cpu_u) {
        if seen.cpu_usage {
            return None;
        }
        match field_deci(s, v0) {
            Some((v, e)) => Some(
                (
                    SidecarReport { cpu_usage: v, ..acc },
                    ReportSeen { cpu_usage: true, ..seen },
                    e,
                ),
            ),
            None => None,
        }
    } else if bytes_eq(key, &k_cpu_t) {
        if seen.cpu_temperature {
            return None;
        }
        match field_deci(s, v0) {
            Some((v, e)) => Some(
                (
                    SidecarReport { cpu_temperature: v, ..acc },
                    ReportSeen { cpu_temperature: true, ..seen },
                    e,
                ),
            ),
            None => None,
        }
    } else if bytes_eq(key, &k_gpu_u) {
        if seen.gpu_usage {
            return None;
        }
        match field_deci(s, v0) {
            Some((v, e)) => Some(
                (
                    SidecarReport { gpu_usage: v, ..acc },
                    ReportSeen { gpu_usage: true, ..seen },
                    e,
                ),
            ),
            None => None,
        }
    } else if bytes_eq(key, &k_gpu_t) {
        if seen.gpu_temperature {
            return None;
        }
        match field_deci(s, v0) {
            Some((v, e)) => Some(
                (
                    SidecarReport { gpu_temperature: v, ..acc },
                    ReportSeen { gpu_temperature: true, ..seen },
                    e,
                ),
            ),
            None => None,
        }
    } else if bytes_eq(key, &k_mem_t) {
        if seen.memory_total {
            return None;
        }
        match field_u64(s, v0) {
            Some((v, e)) => Some(
                (
                    SidecarReport { memory_total: v, ..acc },
                    ReportSeen { memory_total: true, ..seen },
                    e,
                ),
            ),
            None => None,
        }
    } else if bytes_eq(key, &k_mem_u) {
        if seen.memory_used {
            return None;
        }
        match field_u64(s, v0) {
            Some((v, e)) => Some(
                (
                    SidecarReport { memory_used: v, ..acc },
                    ReportSeen { memory_used: true, ..seen },
                    e,
                ),
            ),
            None => None,
        }
    } else if bytes_eq(key, &k_disks) {
        if seen.disks {
            return None;
        }
        if match_null(s, v0) {
            return Some(
                (
                    SidecarReport { disks: None, ..acc },
                    ReportSeen { disks: true, ..seen },
                    v0 + 4,
                ),
            );
        }
        if v0 < s.len() && s[v0] == 91 {
            match parse_disks(s, v0 + 1) {
                Some((ds, e)) => Some(
                    (
                        SidecarReport { disks: Some(ds), ..acc },
                        ReportSeen { disks: true, ..seen },
                        e,
                    ),
                ),
                None => None,
            }
        } else {
            None
        }
    } else {
        match skip_value(s, v0) {
            Some(e) => Some((acc, seen, e)),
            None => None,
        }
    }
}

/// Parses one sidecar response body. The result is present exactly when the
/// body is well formed under this schema; its fields are then the parsed
/// values, with absent and null fields both unmeasured.
pub fn parse_sidecar_report(s: &[u8]) -> (r: Option<SidecarReport>)
    ensures
        match spec_parse_sidecar_report(s@) {
            Some(v) => r matches Some(rep) && rep@ == v,
            None => r is None,
        },
{
    if s.len() > MAX_BODY_LEN {
        return None;
    }
    let i = skip_ws(s, 0);
    if !(i < s.len() && s[i] == 123) {
        return None;
    }
    let mut acc = SidecarReport {
        cpu_usage: None,
        cpu_temperature: None,
        gpu_usage: None,
        gpu_temperature: None,
        memory_total: None,
        memory_used: None,
        disks: None,
    };
    let mut seen = ReportSeen {
        cpu_usage: false,
        cpu_temperature: false,
        gpu_usage: false,
        gpu_temperature: false,
        memory_total: false,
        memory_used: false,
        disks: false,
    };
    assert(acc@ == report_view_empty());
    assert(seen == report_seen_none());
    let mut cur = i + 1;
    let mut first = true;
    loop
        invariant
            cur <= s@.len(),
            s@.len() <= MAX_BODY_LEN,
            i < s@.len() && s@[i as int] == 123,
            i == spec_skip_ws(s@, 0),
            spec_report_members(s@, i + 1, true, report_view_empty(), report_seen_none())
                == spec_report_members(s@, cur as int, first, acc@, seen),
        decreases s@.len() - cur,
    {
        let j = skip_ws(s, cur);
        if j >= s.len() {
            return None;
        }
        if s[j] == 125 {
            if !first {
                return None;
            }
            let t = skip_ws(s, j + 1);
            if t == s.len() {
                return Some(acc);
            }
            return None;
        }
        let (key, k) = match parse_string(s, j) {
            Some(p) => p,
            None => {
                return None;
            },
        };
        proof {
            lemma_parse_string_advances(s@, j as int);
        }
        let c = skip_ws(s, k);
        if !(c < s.len() && s[c] == 58) {
            return None;
        }
        let v0 = skip_ws(s, c + 1);
        let ghost acc0 = acc@;
        let ghost seen0 = seen;
        let (acc2, seen2, end) = match parse_report_field(s, v0, &key, acc, seen) {
            Some(p) => p,
            None => {
                return None;
            },
        };
        proof {
            lemma_report_field_advances(s@, v0 as int, key@, acc0, seen0);
        }
        let t = skip_ws(s, end);
        if t < s.len() && s[t] == 44 {
            acc = acc2;
            seen = seen2;
            cur = t + 1;
            first = false;
        } else if t < s.len() && s[t] == 125 {
            let t2 = skip_ws(s, t + 1);
            if t2 == s.len() {
                return Some(acc2);
            }
            return None;
        } else {
            return None;
        }
    }
}

} // verus!
