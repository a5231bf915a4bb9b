use raspberry_pi_display::metrics::{
    HealthLevel, HealthSnapshot, MemorySnapshot, PiPowerStatus, RuntimeSnapshot, StorageSnapshot,
};
use raspberry_pi_display::stats_panel::{
    clawd_reaction, format_bytes, format_duration, format_memory, format_storage, health_label,
    label_cell, level_color, pi_power_label, runtime_label, PanelColor,
};

/// The panel's byte formatting as the dashboard computes it with doubles.
fn bytes_as_double(bytes: f64) -> String {
    const UNITS: [&str; 5] = ["B", "KB", "MB", "GB", "TB"];
    let mut value = bytes.max(0.0);
    let mut unit = 0;
    while value >= 1024.0 && unit < UNITS.len() - 1 {
        value /= 1024.0;
        unit += 1;
    }
    if unit == 0 || value >= 10.0 {
        format!("{value:.0} {}", UNITS[unit])
    } else {
        format!("{value:.1} {}", UNITS[unit])
    }
}

#[test]
fn bytes_below_a_kilobyte_are_whole_bytes() {
    assert_eq!(format_bytes(0), "0 B");
    assert_eq!(format_bytes(1), "1 B");
    assert_eq!(format_bytes(512), "512 B");
    assert_eq!(format_bytes(1023), "1023 B");
}

#[test]
fn bytes_in_larger_units() {
    assert_eq!(format_bytes(1024), "1.0 KB");
    assert_eq!(format_bytes(1536), "1.5 KB");
    assert_eq!(format_bytes(10 * 1024), "10 KB");
    assert_eq!(format_bytes(1024 * 1024), "1.0 MB");
    assert_eq!(format_bytes(3 * 1024 * 1024 * 1024), "3.0 GB");
    assert_eq!(format_bytes(2048 * 1024 * 1024 * 1024 * 1024), "2048 TB");
    assert_eq!(format_bytes(u64::MAX), "16777216 TB");
}

#[test]
fn bytes_round_half_to_even() {
    // 1.25 KB and 10.5 KB are exact ties.
    assert_eq!(format_bytes(1280), "1.2 KB");
    assert_eq!(format_bytes(1408), "1.4 KB");
    assert_eq!(format_bytes(10752), "10 KB");
    assert_eq!(format_bytes(11776), "12 KB");
    // Just under ten kilobytes rounds up to ten with one decimal.
    assert_eq!(format_bytes(10235), "10.0 KB");
}

#[test]
fn bytes_agree_with_double_formatting() {
    let mut samples: Vec<u64> = vec![
        0, 1, 9, 10, 999, 1000, 1023, 1024, 1025, 1075, 1126, 1280, 1536, 10239, 10240, 10752,
        11264, 1_000_000, 1_048_575, 1_048_576, 7_999_999_999, 31_914_983_424,
        (1 << 53) - 1, 1 << 53, (1 << 53) + 1, (1 << 53) + 3, (1 << 60) + 12345, u64::MAX - 1,
        u64::MAX,
    ];
    let mut x: u64 = 0x9E37_79B9_7F4A_7C15;
    for shift in 0..64 {
        x = x.wrapping_mul(6364136223846793005).wrapping_add(1442695040888963407);
        samples.push(x >> shift);
        samples.push((1u64 << (shift % 60)) * 5 / 4);
    }
    for bytes in samples {
        assert_eq!(format_bytes(bytes), bytes_as_double(bytes as f64), "bytes {bytes}");
    }
}

#[test]
fn memory_and_storage_show_free_and_total() {
    let memory = MemorySnapshot { available: 512 * 1024 * 1024, used: 3 * 1024 * 1024 * 1024, total: 4 * 1024 * 1024 * 1024 };
    assert_eq!(format_memory(memory), "512 MB free / 4.0 GB total");
    let storage = StorageSnapshot { available: 20 * 1024 * 1024 * 1024, total: 64 * 1024 * 1024 * 1024 };
    assert_eq!(format_storage(storage), "20 GB free / 64 GB total");
}

#[test]
fn durations_in_minutes_hours_and_days() {
    assert_eq!(format_duration(0), "0m");
    assert_eq!(format_duration(59), "0m");
    assert_eq!(format_duration(61), "1m");
    assert_eq!(format_duration(3599), "59m");
    assert_eq!(format_duration(3600), "1h 0m");
    assert_eq!(format_duration(3 * 3600 + 25 * 60 + 7), "3h 25m");
    assert_eq!(format_duration(86_399), "23h 59m");
    assert_eq!(format_duration(86_400), "1d 0h");
    assert_eq!(format_duration(5 * 86_400 + 7 * 3600 + 59 * 60), "5d 7h");
}

#[test]
fn runtime_labels() {
    assert_eq!(runtime_label(RuntimeSnapshot { launched_by_systemd: true }), "systemd");
    assert_eq!(runtime_label(RuntimeSnapshot { launched_by_systemd: false }), "manual");
}

#[test]
fn health_labels_and_reactions() {
    let ok = HealthSnapshot { level: HealthLevel::Normal, reason: "all clear" };
    let warn = HealthSnapshot { level: HealthLevel::Warn, reason: "cpu busy" };
    let alert = HealthSnapshot { level: HealthLevel::Alert, reason: "disk tight" };
    assert_eq!(health_label(ok), "ok");
    assert_eq!(health_label(warn), "warn: cpu busy");
    assert_eq!(health_label(alert), "alert: disk tight");
    assert_eq!(clawd_reaction(ok), "patrol ok");
    assert_eq!(clawd_reaction(warn), "watching");
    assert_eq!(clawd_reaction(alert), "on alert");
}

#[test]
fn level_colors() {
    assert_eq!(level_color(HealthLevel::Normal), PanelColor::White);
    assert_eq!(level_color(HealthLevel::Warn), PanelColor::Yellow);
    assert_eq!(level_color(HealthLevel::Alert), PanelColor::Red);
}

#[test]
fn power_labels() {
    assert_eq!(pi_power_label(PiPowerStatus::Unknown), "n/a");
    assert_eq!(pi_power_label(PiPowerStatus::Normal), "ok");
    assert_eq!(pi_power_label(PiPowerStatus::Flags(0x1)), "undervoltage");
    assert_eq!(
        pi_power_label(PiPowerStatus::Flags(0x5000f)),
        "undervoltage, freq capped, throttled, soft temp"
    );
    assert_eq!(pi_power_label(PiPowerStatus::Flags(0x6)), "freq capped, throttled");
    assert_eq!(pi_power_label(PiPowerStatus::Flags(0x50000)), "had events");
    assert_eq!(pi_power_label(PiPowerStatus::Flags(0x100)), "flags 0x100");
    assert_eq!(pi_power_label(PiPowerStatus::Flags(0xabc00000)), "flags 0xabc00000");
}

#[test]
fn label_column() {
    assert_eq!(label_cell("CPU"), "CPU    ");
    assert_eq!(label_cell("HEALTH"), "HEALTH ");
    assert_eq!(label_cell("CLAWDIE"), "CLAWDIE");
    assert_eq!(label_cell("TOOLONGLABEL"), "TOOLONGLABEL");
    assert_eq!(label_cell(""), "       ");
    for label in ["UP", "é", "POWER"] {
        assert_eq!(label_cell(label), format!("{label:<7}"));
    }
}
