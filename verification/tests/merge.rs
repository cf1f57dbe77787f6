use divoom_monitor::metrics::{get_system_metrics, DiskProbe, ProbeSnapshot};
use divoom_monitor::sensors::SensorReading;
use divoom_monitor::sidecar::parse_sidecar_report;

fn probe_with(
    vendor_cpu: Option<i64>,
    vendor_gpu_temp: Option<i64>,
    vendor_gpu_usage: Option<i64>,
    components: Vec<SensorReading>,
) -> ProbeSnapshot {
    ProbeSnapshot {
        cpu_usage: 123,
        memory_total: 16_000_000_000,
        memory_used: 8_000_000_000,
        components,
        vendor_cpu_temperature: vendor_cpu,
        vendor_gpu_temperature: vendor_gpu_temp,
        vendor_gpu_usage,
        disks: vec![DiskProbe {
            name: b"disk0".to_vec(),
            mount_point: b"/".to_vec(),
            total_space: 1000,
            available_space: 250,
        }],
    }
}

#[test]
fn sidecar_temperature_wins_and_null_falls_back() {
    // cpu_temperature 45.2 is used as-is; gpu_temperature is null, so the
    // probe supplies it when it can.
    let body = br#"{"cpu_temperature": 45.2, "gpu_temperature": null}"#;
    let report = parse_sidecar_report(body);
    assert!(report.is_some());
    let probe = probe_with(None, Some(615), None, Vec::new());
    let m = get_system_metrics(&report, &probe);
    assert_eq!(m.cpu_temperature, Some(452));
    assert_eq!(m.gpu_temperature, Some(615));
}

#[test]
fn sidecar_null_with_no_probe_source_stays_absent() {
    let body = br#"{"cpu_temperature": 45.2, "gpu_temperature": null}"#;
    let report = parse_sidecar_report(body);
    let probe = probe_with(None, None, None, Vec::new());
    let m = get_system_metrics(&report, &probe);
    assert_eq!(m.cpu_temperature, Some(452));
    assert_eq!(m.gpu_temperature, None);
}

#[test]
fn out_of_range_sidecar_reading_is_discarded() {
    // 500.0 C is implausible: the sidecar value is dropped and the probe
    // value takes its place.
    let body = br#"{"cpu_temperature": 500.0}"#;
    let report = parse_sidecar_report(body);
    assert!(report.is_some());
    let probe = probe_with(Some(480), None, None, Vec::new());
    let m = get_system_metrics(&report, &probe);
    assert_eq!(m.cpu_temperature, Some(480));
}

#[test]
fn out_of_range_probe_reading_is_discarded_too() {
    let probe = probe_with(Some(5000), None, None, Vec::new());
    let m = get_system_metrics(&None, &probe);
    assert_eq!(m.cpu_temperature, None);
}

#[test]
fn total_sidecar_absence_still_fills_probe_fields() {
    // Connection refused: no report at all. CPU usage, memory and disks come
    // from the probe; temperatures come from the probe or stay absent.
    let components = vec![
        SensorReading { label: b"CPU Package".to_vec(), temperature: 520 },
        SensorReading { label: b"GPU Hotspot".to_vec(), temperature: 640 },
    ];
    let probe = probe_with(None, None, None, components);
    let m = get_system_metrics(&None, &probe);
    assert_eq!(m.cpu_usage, 123);
    assert_eq!(m.memory_total, 16_000_000_000);
    assert_eq!(m.memory_used, 8_000_000_000);
    assert_eq!(m.cpu_temperature, Some(520));
    assert_eq!(m.gpu_temperature, Some(640));
    assert_eq!(m.disks.len(), 1);
    assert_eq!(m.disks[0].name, b"disk0".to_vec());
    assert_eq!(m.disks[0].used_space, 750);
    assert_eq!(m.disks[0].usage_percent, 750);
}

#[test]
fn vendor_interface_outranks_keyword_scan() {
    let components = vec![SensorReading { label: b"cpu package".to_vec(), temperature: 520 }];
    let probe = probe_with(Some(505), None, None, components);
    let m = get_system_metrics(&None, &probe);
    assert_eq!(m.cpu_temperature, Some(505));
}

#[test]
fn gpu_usage_prefers_sidecar_then_vendor() {
    let body = br#"{"gpu_usage": 33.0}"#;
    let report = parse_sidecar_report(body);
    let probe = probe_with(None, None, Some(900), Vec::new());
    let m = get_system_metrics(&report, &probe);
    assert_eq!(m.gpu_usage, Some(330));

    let m2 = get_system_metrics(&None, &probe);
    assert_eq!(m2.gpu_usage, Some(900));
}

#[test]
fn empty_disk_has_zero_percent() {
    let mut probe = probe_with(None, None, None, Vec::new());
    probe.disks = vec![DiskProbe {
        name: b"empty".to_vec(),
        mount_point: b"/mnt".to_vec(),
        total_space: 0,
        available_space: 0,
    }];
    let m = get_system_metrics(&None, &probe);
    assert_eq!(m.disks[0].used_space, 0);
    assert_eq!(m.disks[0].usage_percent, 0);
}

#[test]
fn disk_percent_truncates() {
    let mut probe = probe_with(None, None, None, Vec::new());
    probe.disks = vec![DiskProbe {
        name: b"d".to_vec(),
        mount_point: b"/d".to_vec(),
        total_space: 3,
        available_space: 1,
    }];
    let m = get_system_metrics(&None, &probe);
    // 2 of 3 bytes used: 666.6... per mille, truncated to 666 tenths of a percent.
    assert_eq!(m.disks[0].usage_percent, 666);
}
