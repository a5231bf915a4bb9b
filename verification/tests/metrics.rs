use raspberry_pi_display::metrics::{
    disk_level, health_snapshot, network_bytes, parse_throttled_flags, pi_power_level,
    pi_power_status, raise_health, runtime_snapshot, select_disk, storage_snapshot, DiskSpace,
    HealthLevel, HealthSnapshot, InterfaceTraffic, PiPowerStatus, StorageSnapshot,
};

fn iface(name: &str, received: u64, transmitted: u64) -> InterfaceTraffic {
    InterfaceTraffic { name: name.to_string(), received, transmitted }
}

fn disk(mount: &str, available: u64, total: u64) -> DiskSpace {
    DiskSpace { mount_point: mount.to_string(), available, total }
}

#[test]
fn throttled_reports_from_vcgencmd() {
    assert_eq!(parse_throttled_flags("throttled=0x0\n"), Some(0));
    assert_eq!(parse_throttled_flags("throttled=0x50005\n"), Some(0x50005));
    assert_eq!(parse_throttled_flags("throttled=0xE0008"), Some(0xe0008));
    assert_eq!(parse_throttled_flags("throttled=0xe0008"), Some(0xe0008));
    assert_eq!(parse_throttled_flags("throttled=0xFfFf"), Some(0xffff));
}

#[test]
fn throttled_reports_from_sysfs() {
    assert_eq!(parse_throttled_flags("0\n"), Some(0));
    assert_eq!(parse_throttled_flags("50000\n"), Some(50000));
    assert_eq!(parse_throttled_flags("  42 \r\n"), Some(42));
    assert_eq!(parse_throttled_flags("\u{a0}7\u{3000}"), Some(7));
}

#[test]
fn throttled_reports_take_the_last_word() {
    assert_eq!(parse_throttled_flags("a = b\t= 12 =="), Some(12));
    assert_eq!(parse_throttled_flags("x 1 2 3"), Some(3));
    assert_eq!(parse_throttled_flags("+17"), Some(17));
    assert_eq!(parse_throttled_flags("0x+1f"), Some(0x1f));
}

#[test]
fn throttled_reports_that_state_nothing() {
    assert_eq!(parse_throttled_flags(""), None);
    assert_eq!(parse_throttled_flags("   \n\t"), None);
    assert_eq!(parse_throttled_flags("===="), None);
    assert_eq!(parse_throttled_flags("throttled=0x"), None);
    assert_eq!(parse_throttled_flags("throttled=0X10"), None);
    assert_eq!(parse_throttled_flags("throttled=ok"), None);
    assert_eq!(parse_throttled_flags("-1"), None);
    assert_eq!(parse_throttled_flags("+"), None);
    assert_eq!(parse_throttled_flags("4294967295"), Some(u32::MAX));
    assert_eq!(parse_throttled_flags("4294967296"), None);
    assert_eq!(parse_throttled_flags("0x100000000"), None);
    assert_eq!(parse_throttled_flags("12\r7"), None);
}

#[test]
fn throttled_report_roundtrip() {
    for flags in [0u32, 1, 0x5, 0xf, 0x50000, 0x50005, 0xe000f, 0xdead_beef, u32::MAX] {
        let report = format!("throttled=0x{flags:x}\n");
        assert_eq!(parse_throttled_flags(&report), Some(flags));
    }
}

#[test]
fn agrees_with_std_parsing() {
    for raw in ["throttled=0x1a", "7", " 0x10 ", "1e3", "0x", "", "=5=", "99999999999"] {
        let word = raw.trim().split(['=', ' ', '\n', '\t']).rev().find(|p| !p.is_empty());
        let expected = word.and_then(|v| {
            v.strip_prefix("0x")
                .map(|hex| u32::from_str_radix(hex, 16))
                .unwrap_or_else(|| v.parse())
                .ok()
        });
        assert_eq!(parse_throttled_flags(raw), expected, "report {raw:?}");
    }
}

#[test]
fn power_status_from_reports() {
    assert_eq!(pi_power_status(None), PiPowerStatus::Unknown);
    assert_eq!(pi_power_status(Some("garbage")), PiPowerStatus::Unknown);
    assert_eq!(pi_power_status(Some("throttled=0x0\n")), PiPowerStatus::Normal);
    assert_eq!(pi_power_status(Some("throttled=0x50000\n")), PiPowerStatus::Flags(0x50000));
}

#[test]
fn power_levels() {
    assert_eq!(pi_power_level(PiPowerStatus::Unknown), HealthLevel::Normal);
    assert_eq!(pi_power_level(PiPowerStatus::Normal), HealthLevel::Normal);
    assert_eq!(pi_power_level(PiPowerStatus::Flags(0x50000)), HealthLevel::Warn);
    assert_eq!(pi_power_level(PiPowerStatus::Flags(0x50005)), HealthLevel::Alert);
    assert_eq!(pi_power_level(PiPowerStatus::Flags(0x8)), HealthLevel::Alert);
    assert_eq!(pi_power_level(PiPowerStatus::Flags(0x10)), HealthLevel::Warn);
}

#[test]
fn disk_levels() {
    let level = |available, total| disk_level(StorageSnapshot { available, total });
    assert_eq!(level(0, 0), HealthLevel::Normal);
    assert_eq!(level(5, 0), HealthLevel::Normal);
    assert_eq!(level(0, 100), HealthLevel::Alert);
    assert_eq!(level(10, 100), HealthLevel::Alert);
    assert_eq!(level(11, 100), HealthLevel::Warn);
    assert_eq!(level(20, 100), HealthLevel::Warn);
    assert_eq!(level(21, 100), HealthLevel::Normal);
    assert_eq!(level(200, 100), HealthLevel::Normal);
    assert_eq!(level(u64::MAX / 10, u64::MAX), HealthLevel::Alert);
}

#[test]
fn disk_levels_agree_with_free_ratio() {
    for total in [1u64, 3, 10, 100, 999, 64 * 1024 * 1024 * 1024, 1 << 50] {
        for permille in 0..=300u64 {
            let available = total * permille / 1000;
            let ratio = available as f64 / total as f64;
            let expected = if ratio <= 0.10 {
                HealthLevel::Alert
            } else if ratio <= 0.20 {
                HealthLevel::Warn
            } else {
                HealthLevel::Normal
            };
            assert_eq!(disk_level(StorageSnapshot { available, total }), expected);
        }
    }
}

#[test]
fn less_free_space_is_never_calmer() {
    let total = 1000;
    let mut previous = disk_level(StorageSnapshot { available: 0, total });
    for available in 1..=total {
        let level = disk_level(StorageSnapshot { available, total });
        assert!(level <= previous);
        previous = level;
    }
}

#[test]
fn raising_health() {
    let mut health = HealthSnapshot { level: HealthLevel::Normal, reason: "all clear" };
    raise_health(&mut health, HealthLevel::Normal, "w", "a");
    assert_eq!((health.level, health.reason), (HealthLevel::Normal, "all clear"));
    raise_health(&mut health, HealthLevel::Warn, "heat", "hot");
    assert_eq!((health.level, health.reason), (HealthLevel::Warn, "heat"));
    raise_health(&mut health, HealthLevel::Warn, "cpu busy", "cpu pegged");
    assert_eq!((health.level, health.reason), (HealthLevel::Warn, "heat"));
    raise_health(&mut health, HealthLevel::Alert, "disk low", "disk tight");
    assert_eq!((health.level, health.reason), (HealthLevel::Alert, "disk tight"));
    raise_health(&mut health, HealthLevel::Warn, "ram busy", "ram tight");
    assert_eq!((health.level, health.reason), (HealthLevel::Alert, "disk tight"));
}

#[test]
fn overall_health_is_the_worst_signal() {
    let calm = health_snapshot(HealthLevel::Normal, HealthLevel::Normal, None, None, PiPowerStatus::Unknown);
    assert_eq!((calm.level, calm.reason), (HealthLevel::Normal, "all clear"));

    let busy = health_snapshot(
        HealthLevel::Normal,
        HealthLevel::Warn,
        Some(HealthLevel::Warn),
        Some(StorageSnapshot { available: 50, total: 100 }),
        PiPowerStatus::Normal,
    );
    assert_eq!((busy.level, busy.reason), (HealthLevel::Warn, "cpu busy"));

    let tight = health_snapshot(
        HealthLevel::Warn,
        HealthLevel::Normal,
        Some(HealthLevel::Normal),
        Some(StorageSnapshot { available: 5, total: 100 }),
        PiPowerStatus::Flags(0x50000),
    );
    assert_eq!((tight.level, tight.reason), (HealthLevel::Alert, "disk tight"));

    let power = health_snapshot(
        HealthLevel::Warn,
        HealthLevel::Warn,
        None,
        None,
        PiPowerStatus::Flags(0x1),
    );
    assert_eq!((power.level, power.reason), (HealthLevel::Alert, "pi power"));

    let hot = health_snapshot(
        HealthLevel::Alert,
        HealthLevel::Alert,
        Some(HealthLevel::Alert),
        None,
        PiPowerStatus::Flags(0x1),
    );
    assert_eq!((hot.level, hot.reason), (HealthLevel::Alert, "hot"));
}

#[test]
fn systemd_detection() {
    assert!(runtime_snapshot(true, false).launched_by_systemd);
    assert!(runtime_snapshot(false, true).launched_by_systemd);
    assert!(!runtime_snapshot(false, false).launched_by_systemd);
}

#[test]
fn traffic_of_external_interfaces() {
    let ifaces = vec![iface("lo", 1000, 1000), iface("eth0", 10, 20), iface("wlan0", 5, 7)];
    assert_eq!(network_bytes(&ifaces), (15, 27));
}

#[test]
fn traffic_of_loopback_only() {
    let ifaces = vec![iface("lo", 1000, 2000), iface("lo0", 1, 2)];
    assert_eq!(network_bytes(&ifaces), (1001, 2002));
    assert_eq!(network_bytes(&[]), (0, 0));
    let named = vec![iface("local", 3, 4), iface("l", 5, 6)];
    assert_eq!(network_bytes(&named), (5, 6));
}

#[test]
fn last_greatest_disk_is_selected() {
    assert_eq!(select_disk(&[]), None);
    assert_eq!(select_disk(&[0]), Some(0));
    assert_eq!(select_disk(&[1, 3, 2, 3, 0]), Some(3));
    assert_eq!(select_disk(&[4, 1, 1]), Some(0));
}

#[test]
fn storage_of_the_working_directory() {
    let disks = vec![disk("/", 10, 100), disk("/home", 20, 200), disk("/boot", 30, 300)];
    assert_eq!(
        storage_snapshot(Some("/home/pi/app"), &disks),
        Some(StorageSnapshot { available: 20, total: 200 })
    );
    assert_eq!(
        storage_snapshot(Some("/srv/data"), &disks),
        Some(StorageSnapshot { available: 10, total: 100 })
    );
    assert_eq!(storage_snapshot(None, &disks), Some(StorageSnapshot { available: 10, total: 100 }));
    assert_eq!(storage_snapshot(Some("/home"), &[]), None);
}

#[test]
fn storage_by_whole_path_components() {
    let disks = vec![disk("/", 1, 2), disk("/home", 3, 4), disk("/home/pi", 5, 6)];
    assert_eq!(storage_snapshot(Some("/home/pilot"), &disks), Some(StorageSnapshot { available: 3, total: 4 }));
    assert_eq!(storage_snapshot(Some("/home/pi/x"), &disks), Some(StorageSnapshot { available: 5, total: 6 }));
    let others = vec![disk("/mnt/a", 1, 2), disk("/mnt/b", 3, 4)];
    assert_eq!(storage_snapshot(Some("/root"), &others), Some(StorageSnapshot { available: 3, total: 4 }));
}

#[test]
fn storage_falls_back_to_the_root_file_system() {
    let disks = vec![disk("/boot", 1, 2), disk("/", 3, 4), disk("/mnt", 5, 6)];
    assert_eq!(storage_snapshot(None, &disks), Some(StorageSnapshot { available: 3, total: 4 }));
    assert_eq!(storage_snapshot(Some("/srv"), &disks), Some(StorageSnapshot { available: 3, total: 4 }));
}
