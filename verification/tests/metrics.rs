use rstop::metrics::{
    cpu_chart_value, free_ratio, set_disk_section, set_network_section, set_temp_section,
    space_cell, split_sensor_line, Disk, MEMORY_UNIT, SWAP_UNIT,
};
use rstop::text::{digit_char, push_decimal};

fn disk(name: &str, mount: &str, available: u64) -> Disk {
    Disk { name: name.to_string(), mount_point: mount.to_string(), available_space: available }
}

#[test]
fn cpu_value_is_centered_and_scaled() {
    // (90 - 50) / 10 = 4.0
    assert_eq!(cpu_chart_value(9000), 4000);
    // (50 - 50) / 10 = 0.0
    assert_eq!(cpu_chart_value(5000), 0);
    // (0 - 50) / 10 = -5.0
    assert_eq!(cpu_chart_value(0), -5000);
    // (100 - 50) / 10 = 5.0
    assert_eq!(cpu_chart_value(10000), 5000);
    // (12.34 - 50) / 10 = -3.766
    assert_eq!(cpu_chart_value(1234), -3766);
    assert_eq!(cpu_chart_value(u32::MAX), u32::MAX as i128 - 5000);
}

#[test]
fn memory_ratio_is_scaled_by_ten() {
    // 1 / 2 * 10 = 5.0
    assert_eq!(free_ratio(1, 2, MEMORY_UNIT), 5000);
    // 1 / 3 * 10 = 3.333
    assert_eq!(free_ratio(1, 3, MEMORY_UNIT), 3333);
    assert_eq!(free_ratio(8, 8, MEMORY_UNIT), 10000);
    assert_eq!(free_ratio(0, 8, MEMORY_UNIT), 0);
}

#[test]
fn swap_ratio_is_unscaled() {
    assert_eq!(free_ratio(1, 2, SWAP_UNIT), 500);
    assert_eq!(free_ratio(2, 3, SWAP_UNIT), 666);
    assert_eq!(free_ratio(4, 4, SWAP_UNIT), 1000);
}

#[test]
fn ratio_with_zero_total_is_zero() {
    assert_eq!(free_ratio(0, 0, MEMORY_UNIT), 0);
    assert_eq!(free_ratio(123, 0, MEMORY_UNIT), 0);
    assert_eq!(free_ratio(u64::MAX, 0, SWAP_UNIT), 0);
}

#[test]
fn ratio_of_extreme_values_does_not_overflow() {
    assert_eq!(
        free_ratio(u64::MAX, 1, u32::MAX),
        u64::MAX as i128 * u32::MAX as i128
    );
    assert_eq!(free_ratio(u64::MAX, u64::MAX, MEMORY_UNIT), 10000);
}

#[test]
fn network_totals_are_summed() {
    assert_eq!(set_network_section(&vec![]), (0, 0));
    assert_eq!(set_network_section(&vec![(10, 1)]), (10, 1));
    assert_eq!(set_network_section(&vec![(10, 1), (20, 2), (30, 3)]), (60, 6));
    assert_eq!(
        set_network_section(&vec![(u64::MAX, 0), (0, u64::MAX)]),
        (u64::MAX as u128, u64::MAX as u128)
    );
}

#[test]
fn network_totals_beyond_u64_are_exact() {
    assert_eq!(
        set_network_section(&vec![(u64::MAX, 0), (1, 0)]),
        (u64::MAX as u128 + 1, 0)
    );
    assert_eq!(
        set_network_section(&vec![(0, u64::MAX), (0, u64::MAX), (5, u64::MAX)]),
        (5, 3 * (u64::MAX as u128))
    );
}

#[test]
fn decimal_numerals() {
    for n in [0u64, 7, 9, 10, 11, 99, 100, 1234567890, u64::MAX] {
        let mut s = String::new();
        push_decimal(&mut s, n);
        assert_eq!(s, n.to_string());
    }
    let mut zero = String::new();
    push_decimal(&mut zero, 0);
    assert_eq!(zero, "0");
    let mut s = String::from("x=");
    push_decimal(&mut s, 905);
    assert_eq!(s, "x=905");
    let digits: String = (0..10u64).map(digit_char).collect();
    assert_eq!(digits, "0123456789");
}

#[test]
fn space_is_shown_in_megabytes_up_to_a_thousand() {
    assert_eq!(space_cell(0), "0MB");
    assert_eq!(space_cell(999_999), "0MB");
    assert_eq!(space_cell(1_000_000), "1MB");
    assert_eq!(space_cell(512_345_678), "512MB");
    assert_eq!(space_cell(1_000_000_000), "1000MB");
    assert_eq!(space_cell(1_000_999_999), "1000MB");
}

#[test]
fn space_is_shown_in_gigabytes_above_a_thousand() {
    assert_eq!(space_cell(1_001_000_000), "1GB");
    assert_eq!(space_cell(250_000_000_000), "250GB");
    // no unit above GB
    assert_eq!(space_cell(5_000_000_000_000_000), "5000000GB");
    assert_eq!(space_cell(u64::MAX), "18446744073GB");
}

#[test]
fn disk_rows_hold_name_mount_and_space() {
    let rows = set_disk_section(&vec![
        disk("/dev/sda1", "/", 250_000_000_000),
        disk("", "/boot", 300_000_000),
    ]);
    assert_eq!(
        rows,
        vec![
            vec!["/dev/sda1".to_string(), "/".to_string(), "250GB".to_string()],
            vec!["".to_string(), "/boot".to_string(), "300MB".to_string()],
        ]
    );
    assert!(set_disk_section(&vec![]).is_empty());
}

#[test]
fn sensor_line_is_split_at_first_colon() {
    assert_eq!(
        split_sensor_line("Core 0: 45°C (max: 80°C / critical: 100°C)"),
        vec!["Core 0".to_string(), " 45°C (max: 80°C / critical: 100°C)".to_string()]
    );
    assert_eq!(split_sensor_line("a:b"), vec!["a".to_string(), "b".to_string()]);
    assert_eq!(split_sensor_line("cpu:45"), vec!["cpu".to_string(), "45".to_string()]);
}

#[test]
fn sensor_line_edge_cases() {
    assert_eq!(split_sensor_line(""), vec!["".to_string(), "".to_string()]);
    assert_eq!(split_sensor_line("label"), vec!["label".to_string(), "".to_string()]);
    assert_eq!(split_sensor_line(":"), vec!["".to_string(), "".to_string()]);
    assert_eq!(split_sensor_line("::x::"), vec!["".to_string(), ":x::".to_string()]);
    assert_eq!(split_sensor_line("x:"), vec!["x".to_string(), "".to_string()]);
    assert_eq!(split_sensor_line("k:v"), vec!["k".to_string(), "v".to_string()]);
}

#[test]
fn temperature_rows_follow_the_lines() {
    let rows = set_temp_section(&vec![
        "acpitz: 27.8°C (max: 27.8°C)".to_string(),
        "no colon here".to_string(),
        "cpu:45".to_string(),
    ]);
    assert_eq!(
        rows,
        vec![
            vec!["acpitz".to_string(), " 27.8°C (max: 27.8°C)".to_string()],
            vec!["no colon here".to_string(), "".to_string()],
            vec!["cpu".to_string(), "45".to_string()],
        ]
    );
    assert!(set_temp_section(&vec![]).is_empty());
}
