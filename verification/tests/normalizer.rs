use divoom_monitor::sensors::normalize_temperature;

// Temperatures are tenths of a degree Celsius: -40.0 C is -400, and so on.

#[test]
fn normalize_below_range_is_absent() {
    assert_eq!(normalize_temperature(Some(-400)), None);
}

#[test]
fn normalize_just_inside_lower_bound() {
    assert_eq!(normalize_temperature(Some(-299)), Some(-299));
}

#[test]
fn normalize_at_lower_bound() {
    assert_eq!(normalize_temperature(Some(-300)), Some(-300));
}

#[test]
fn normalize_at_upper_bound() {
    assert_eq!(normalize_temperature(Some(2000)), Some(2000));
}

#[test]
fn normalize_just_above_range_is_absent() {
    assert_eq!(normalize_temperature(Some(2001)), None);
}

#[test]
fn normalize_absent_stays_absent() {
    assert_eq!(normalize_temperature(None), None);
}

#[test]
fn normalize_ordinary_reading_passes() {
    assert_eq!(normalize_temperature(Some(452)), Some(452));
}
