use divoom_monitor::sidecar::parse_sidecar_report;

#[test]
fn parses_full_body() {
    let body = br#"{"cpu_usage": 12.5, "cpu_temperature": 45.2, "gpu_usage": 33.0,
        "gpu_temperature": 61.5, "memory_total": 17179869184, "memory_used": 8589934592,
        "disks": [{"name": "C:", "mount_point": "C:\\", "total_space": 1000,
        "available_space": 250, "used_space": 750, "usage_percent": 75.0}]}"#;
    let rep = parse_sidecar_report(body).expect("well-formed body");
    assert_eq!(rep.cpu_usage, Some(125));
    assert_eq!(rep.cpu_temperature, Some(452));
    assert_eq!(rep.gpu_usage, Some(330));
    assert_eq!(rep.gpu_temperature, Some(615));
    assert_eq!(rep.memory_total, Some(17179869184));
    assert_eq!(rep.memory_used, Some(8589934592));
    let disks = rep.disks.expect("disks present");
    assert_eq!(disks.len(), 1);
    assert_eq!(disks[0].name, b"C:".to_vec());
    assert_eq!(disks[0].mount_point, b"C:\\".to_vec());
    assert_eq!(disks[0].total_space, 1000);
    assert_eq!(disks[0].available_space, 250);
    assert_eq!(disks[0].used_space, 750);
    assert_eq!(disks[0].usage_percent, 750);
}

#[test]
fn null_and_missing_fields_are_unmeasured() {
    let body = br#"{"cpu_temperature": 45.2, "gpu_temperature": null}"#;
    let rep = parse_sidecar_report(body).expect("well-formed body");
    assert_eq!(rep.cpu_temperature, Some(452));
    assert_eq!(rep.gpu_temperature, None);
    assert_eq!(rep.cpu_usage, None);
    assert_eq!(rep.memory_total, None);
    assert!(rep.disks.is_none());
}

#[test]
fn out_of_range_temperature_still_parses() {
    let body = br#"{"cpu_temperature": 500.0}"#;
    let rep = parse_sidecar_report(body).expect("well-formed body");
    assert_eq!(rep.cpu_temperature, Some(5000));
}

#[test]
fn empty_object_parses() {
    let rep = parse_sidecar_report(b"{}").expect("empty object");
    assert_eq!(rep.cpu_temperature, None);
    assert!(rep.disks.is_none());
}

#[test]
fn unknown_fields_are_skipped() {
    let body = br#"{"vendor": "x", "extra": {"a": [1, 2, {"b": "}"}]}, "cpu_usage": 7}"#;
    let rep = parse_sidecar_report(body).expect("unknown fields skipped");
    assert_eq!(rep.cpu_usage, Some(70));
}

#[test]
fn duplicate_known_field_is_malformed() {
    let body = br#"{"cpu_usage": 1, "cpu_usage": 2}"#;
    assert!(parse_sidecar_report(body).is_none());
}

#[test]
fn trailing_garbage_is_malformed() {
    assert!(parse_sidecar_report(br#"{"cpu_usage": 1} x"#).is_none());
    assert!(parse_sidecar_report(br#"{"cpu_usage": 1}}"#).is_none());
}

#[test]
fn truncated_bodies_are_malformed() {
    assert!(parse_sidecar_report(b"").is_none());
    assert!(parse_sidecar_report(b"{").is_none());
    assert!(parse_sidecar_report(br#"{"cpu_usage""#).is_none());
    assert!(parse_sidecar_report(br#"{"cpu_usage": "#).is_none());
    assert!(parse_sidecar_report(br#"{"cpu_usage": 1"#).is_none());
}

#[test]
fn non_object_bodies_are_malformed() {
    assert!(parse_sidecar_report(b"42").is_none());
    assert!(parse_sidecar_report(b"[1, 2]").is_none());
    assert!(parse_sidecar_report(b"null").is_none());
}

#[test]
fn leading_zero_numbers_are_malformed() {
    assert!(parse_sidecar_report(br#"{"cpu_usage": 01}"#).is_none());
}

#[test]
fn bare_fraction_forms_are_malformed() {
    assert!(parse_sidecar_report(br#"{"cpu_usage": .5}"#).is_none());
    assert!(parse_sidecar_report(br#"{"cpu_usage": 1.}"#).is_none());
}

#[test]
fn wrong_type_for_known_field_is_malformed() {
    assert!(parse_sidecar_report(br#"{"cpu_usage": "hot"}"#).is_none());
    assert!(parse_sidecar_report(br#"{"cpu_usage": true}"#).is_none());
    assert!(parse_sidecar_report(br#"{"disks": 5}"#).is_none());
    assert!(parse_sidecar_report(br#"{"memory_total": 1.5}"#).is_none());
    assert!(parse_sidecar_report(br#"{"memory_total": -1}"#).is_none());
}

#[test]
fn exponents_scale_values() {
    let body = br#"{"cpu_temperature": 4.52e1, "gpu_temperature": 615e-1}"#;
    let rep = parse_sidecar_report(body).expect("exponent forms");
    assert_eq!(rep.cpu_temperature, Some(452));
    assert_eq!(rep.gpu_temperature, Some(615));
}

#[test]
fn negative_temperatures_parse() {
    let body = br#"{"cpu_temperature": -29.9}"#;
    let rep = parse_sidecar_report(body).expect("negative value");
    assert_eq!(rep.cpu_temperature, Some(-299));
}

#[test]
fn extra_fraction_digits_truncate_toward_zero() {
    let body = br#"{"cpu_temperature": 45.27, "gpu_temperature": -45.27}"#;
    let rep = parse_sidecar_report(body).expect("long fractions");
    assert_eq!(rep.cpu_temperature, Some(452));
    assert_eq!(rep.gpu_temperature, Some(-452));
}

#[test]
fn huge_values_become_unmeasured() {
    let body = br#"{"cpu_temperature": 1e400}"#;
    let rep = parse_sidecar_report(body).expect("huge value");
    assert_eq!(rep.cpu_temperature, None);
}

#[test]
fn tiny_values_truncate_to_zero() {
    let body = br#"{"cpu_temperature": 1e-400}"#;
    let rep = parse_sidecar_report(body).expect("tiny value");
    assert_eq!(rep.cpu_temperature, Some(0));
}

#[test]
fn string_escapes_decode() {
    let body = br#"{"disks": [{"name": "a\"b\\c\n", "mount_point": "\/", "total_space": 10,
        "available_space": 4, "used_space": 6, "usage_percent": 60.0}]}"#;
    let rep = parse_sidecar_report(body).expect("escapes");
    let disks = rep.disks.expect("disks");
    assert_eq!(disks[0].name, b"a\"b\\c\n".to_vec());
    assert_eq!(disks[0].mount_point, b"/".to_vec());
}

#[test]
fn incomplete_disk_record_is_malformed() {
    let body = br#"{"disks": [{"name": "a", "mount_point": "b", "total_space": 10}]}"#;
    assert!(parse_sidecar_report(body).is_none());
}

#[test]
fn empty_disks_array_parses() {
    let rep = parse_sidecar_report(br#"{"disks": []}"#).expect("empty array");
    assert_eq!(rep.disks.expect("disks").len(), 0);
}

#[test]
fn null_disks_is_unmeasured() {
    let rep = parse_sidecar_report(br#"{"disks": null}"#).expect("null disks");
    assert!(rep.disks.is_none());
}

#[test]
fn trailing_comma_is_malformed() {
    assert!(parse_sidecar_report(br#"{"cpu_usage": 1,}"#).is_none());
    assert!(parse_sidecar_report(br#"{"disks": [{"name": "a", "mount_point": "b",
        "total_space": 1, "available_space": 0, "used_space": 1, "usage_percent": 100.0},]}"#)
        .is_none());
}

#[test]
fn malformed_exponents_are_rejected() {
    assert!(parse_sidecar_report(br#"{"cpu_usage": 1e}"#).is_none());
    assert!(parse_sidecar_report(br#"{"cpu_usage": 1e+}"#).is_none());
    let rep = parse_sidecar_report(br#"{"cpu_usage": 1e+1}"#).expect("signed exponent");
    assert_eq!(rep.cpu_usage, Some(100));
}

#[test]
fn plus_signed_numbers_are_rejected() {
    assert!(parse_sidecar_report(br#"{"cpu_usage": +1}"#).is_none());
}

#[test]
fn raw_control_bytes_in_strings_are_rejected() {
    let body = b"{\"disks\": [{\"name\": \"a\x01b\", \"mount_point\": \"m\",
        \"total_space\": 1, \"available_space\": 0, \"used_space\": 1,
        \"usage_percent\": 100.0}]}";
    assert!(parse_sidecar_report(body).is_none());
}

#[test]
fn unicode_escapes_count_as_malformed() {
    // This grammar decodes only the single-character escapes; a body using
    // a unicode escape is treated as malformed, so the sidecar counts as
    // absent for that collection.
    let body = br#"{"disks": [{"name": "\u0041", "mount_point": "m",
        "total_space": 1, "available_space": 0, "used_space": 1,
        "usage_percent": 100.0}]}"#;
    assert!(parse_sidecar_report(body).is_none());
}

#[test]
fn agrees_with_reference_parser_on_numbers() {
    // The same bodies read through serde_json must show the same values
    // (scaled by ten) for the fields this crate keeps.
    let bodies: [&[u8]; 3] = [
        br#"{"cpu_usage": 12.5, "cpu_temperature": 45.2, "memory_total": 1024}"#,
        br#"{"gpu_temperature": -3.25, "gpu_usage": 100}"#,
        br#"{"cpu_temperature": 9e2}"#,
    ];
    for body in bodies {
        let mine = parse_sidecar_report(body).expect("well-formed body");
        let reference: serde_json::Value =
            serde_json::from_slice(body).expect("reference parser accepts");
        for (key, got) in [
            ("cpu_usage", mine.cpu_usage),
            ("cpu_temperature", mine.cpu_temperature),
            ("gpu_usage", mine.gpu_usage),
            ("gpu_temperature", mine.gpu_temperature),
        ] {
            match reference.get(key).and_then(|v| v.as_f64()) {
                Some(x) => {
                    let expected = (x * 10.0).trunc() as i64;
                    assert_eq!(got, Some(expected), "field {key}");
                }
                None => assert_eq!(got, None, "field {key}"),
            }
        }
    }
}
