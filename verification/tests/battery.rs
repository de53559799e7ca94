use dygma_sd_plugin::battery::{levels_from_reads, BatteryLevels};

fn sample(left: u8, right: u8) -> BatteryLevels {
    BatteryLevels {
        left,
        right,
        left_status: Some(0),
        right_status: Some(0),
    }
}

#[test]
fn title_format() {
    assert_eq!(sample(100, 40).title(), "L100%\nR40%");
    assert_eq!(sample(0, 0).title(), "L0%\nR0%");
    assert_eq!(sample(9, 99).title(), "L9%\nR99%");
}

#[test]
fn display_includes_status() {
    let levels = BatteryLevels {
        left: 80,
        right: 20,
        left_status: Some(1),
        right_status: None,
    };
    let s = levels.to_string();
    assert!(s.contains("L80% (s1)"), "{s}");
    assert!(s.contains("R20% (s?)"), "{s}");
}

#[test]
fn display_both_status_unknown() {
    let levels = BatteryLevels {
        left: 50,
        right: 50,
        left_status: None,
        right_status: None,
    };
    assert_eq!(levels.to_string(), "L50% (s?) R50% (s?)");
}

#[test]
fn equality_and_clone() {
    let a = sample(10, 20);
    let b = a.clone();
    assert_eq!(a, b);
    assert_ne!(a, sample(11, 20));
}

#[test]
fn title_prints_full_u8_range() {
    assert_eq!(sample(255, 7).title(), "L255%\nR7%");
}

#[test]
fn description_with_multi_digit_status() {
    let levels = BatteryLevels {
        left: 3,
        right: 100,
        left_status: Some(255),
        right_status: Some(10),
    };
    assert_eq!(levels.to_string(), "L3% (s255) R100% (s10)");
}

#[test]
fn unreadable_status_becomes_unknown() {
    let levels = levels_from_reads::<String>(70, 30, Ok(2), Err("timeout".to_string()));
    assert_eq!(
        levels,
        BatteryLevels {
            left: 70,
            right: 30,
            left_status: Some(2),
            right_status: None,
        }
    );
    let both = levels_from_reads::<String>(1, 2, Err("a".to_string()), Ok(0));
    assert_eq!(both.left_status, None);
    assert_eq!(both.right_status, Some(0));
}
