use divoom_monitor::devices::{
    dedup_devices, device_type_for_hardware, get_next_pic_id, lcd_array, resolved_text_settings,
    PicIdCounter,
};
use divoom_monitor::models::{DivoomDevice, TextConfig};
use divoom_monitor::sensors::{find_temperature, SensorReading};

fn device(name: &str, ip: Option<&str>, mac: Option<&str>) -> DivoomDevice {
    DivoomDevice {
        name: name.to_string(),
        mac_address: mac.map(|s| s.to_string()),
        device_type: "Times Gate".to_string(),
        ip_address: ip.map(|s| s.to_string()),
        signal_strength: None,
        is_connected: true,
        device_id: Some(1),
    }
}

#[test]
fn dedup_drops_same_ip() {
    let devs = vec![
        device("a", Some("10.0.0.2"), None),
        device("b", Some("10.0.0.2"), Some("aa:bb")),
        device("c", Some("10.0.0.3"), None),
    ];
    let out = dedup_devices(devs);
    assert_eq!(out.len(), 2);
    assert_eq!(out[0].name, "a");
    assert_eq!(out[1].name, "c");
}

#[test]
fn dedup_drops_same_mac() {
    let devs = vec![
        device("a", None, Some("aa:bb")),
        device("b", Some("10.0.0.9"), Some("aa:bb")),
    ];
    let out = dedup_devices(devs);
    assert_eq!(out.len(), 1);
    assert_eq!(out[0].name, "a");
}

#[test]
fn dedup_keeps_devices_without_addresses() {
    let devs = vec![device("a", None, None), device("b", None, None)];
    let out = dedup_devices(devs);
    assert_eq!(out.len(), 2);
}

#[test]
fn hardware_codes_map_to_names() {
    assert_eq!(device_type_for_hardware(400), "Times Gate");
    assert_eq!(device_type_for_hardware(401), "Pixoo 64");
    assert_eq!(device_type_for_hardware(404), "Ditoo");
    assert_eq!(device_type_for_hardware(408), "Pixoo Mini");
    assert_eq!(device_type_for_hardware(0), "Unknown Divoom Device");
    assert_eq!(device_type_for_hardware(999), "Unknown Divoom Device");
}

#[test]
fn lcd_array_selects_one_panel() {
    assert_eq!(lcd_array(0), vec![1, 0, 0, 0, 0]);
    assert_eq!(lcd_array(3), vec![0, 0, 0, 1, 0]);
    assert_eq!(lcd_array(7), vec![0, 0, 0, 0, 0]);
}

#[test]
fn text_settings_default_and_pass_through() {
    let bare = TextConfig {
        id: 1,
        content: "hi".to_string(),
        x: 0,
        y: 0,
        font: None,
        color: None,
        alignment: None,
        text_width: None,
    };
    let (color, font, alignment, width) = resolved_text_settings(&bare);
    assert_eq!(color, "255,255,255");
    assert_eq!(font, 7);
    assert_eq!(alignment, 0);
    assert_eq!(width, 64);

    let set = TextConfig {
        id: 1,
        content: "hi".to_string(),
        x: 0,
        y: 0,
        font: Some(2),
        color: Some("0,0,0".to_string()),
        alignment: Some(1),
        text_width: Some(32),
    };
    let (color, font, alignment, width) = resolved_text_settings(&set);
    assert_eq!(color, "0,0,0");
    assert_eq!(font, 2);
    assert_eq!(alignment, 1);
    assert_eq!(width, 32);
}

#[test]
fn pic_ids_start_at_1000_and_count_up() {
    let mut counter = PicIdCounter::new();
    assert_eq!(get_next_pic_id(&mut counter), 1000);
    assert_eq!(get_next_pic_id(&mut counter), 1001);
    assert_eq!(get_next_pic_id(&mut counter), 1002);
}

#[test]
fn pic_id_wraps_at_the_limit() {
    let mut counter = PicIdCounter::new();
    counter.value = u32::MAX;
    assert_eq!(get_next_pic_id(&mut counter), u32::MAX);
    assert_eq!(get_next_pic_id(&mut counter), 0);
}

#[test]
fn find_temperature_matches_keywords_case_insensitively() {
    let readings = vec![
        SensorReading { label: b"CPU Package".to_vec(), temperature: 520 },
        SensorReading { label: b"Ambient".to_vec(), temperature: 250 },
    ];
    let keywords = vec![b"cpu".to_vec(), b"package".to_vec()];
    assert_eq!(find_temperature(&readings, &keywords), Some(520));
}

#[test]
fn find_temperature_takes_the_maximum_across_duplicates() {
    let readings = vec![
        SensorReading { label: b"gpu core".to_vec(), temperature: 600 },
        SensorReading { label: b"GPU Hotspot".to_vec(), temperature: 720 },
        SensorReading { label: b"Graphics Mem".to_vec(), temperature: 650 },
    ];
    let keywords = vec![b"gpu".to_vec(), b"graphics".to_vec()];
    assert_eq!(find_temperature(&readings, &keywords), Some(720));
}

#[test]
fn find_temperature_without_match_is_absent() {
    let readings = vec![SensorReading { label: b"Ambient".to_vec(), temperature: 250 }];
    let keywords = vec![b"cpu".to_vec(), b"package".to_vec()];
    assert_eq!(find_temperature(&readings, &keywords), None);
}
