use syswatch::power::{
    chip_fans, parse_linux_battery, parse_macos_ioreg_battery, parse_macos_pmset_source,
    parse_macos_pmset_throttle, scan_linux_supplies, thermal_zone, BatteryFiles, FanFiles,
    PowerCollector, PowerSource, RefreshTimer, SupplyFiles,
};

fn f32_of(text: &str) -> Option<f32> {
    text.parse::<f32>().ok()
}

#[test]
fn parses_real_ioreg_sample() {
    let sample = r#"
      "CurrentCapacity" = 74
      "TimeRemaining" = 378
      "Amperage" = 18446744073709551133
      "FullyCharged" = No
      "MaxCapacity" = 100
      "Temperature" = 3064
      "DesignCapacity" = 6249
      "IsCharging" = No
      "Voltage" = 12135
      "CycleCount" = 91
        "#;
    let bat = parse_macos_ioreg_battery(sample).expect("battery parsed");
    let charge_pct = f32_of(&bat.charge_text).unwrap_or(0.0);
    let health_pct = bat.health_text.as_deref().and_then(f32_of);
    let voltage_v = bat.voltage_text.as_deref().and_then(f32_of).map(|v| v / 1000.0);
    let temp_c = bat.temp_text.as_deref().and_then(f32_of).map(|v| v / 100.0);
    assert_eq!(charge_pct as i32, 74);
    assert_eq!(bat.cycle_count, Some(91));
    assert_eq!(health_pct, Some(100.0));
    assert!(!bat.is_charging);
    assert_eq!(bat.time_remaining_min, Some(378));
    assert!((voltage_v.unwrap() - 12.135).abs() < 0.001);
    assert!((temp_c.unwrap() - 30.64).abs() < 0.01);
    // 18446744073709551133 == -483 as i64 → -483 mA.
    assert_eq!(bat.amperage_ma, Some(-483));
}

#[test]
fn ioreg_without_charge_is_no_battery() {
    assert!(parse_macos_ioreg_battery("").is_none());
    assert!(parse_macos_ioreg_battery("  \"Voltage\" = 12000\n  \"CycleCount\" = 3\n").is_none());
}

#[test]
fn ioreg_later_lines_win_and_odd_values() {
    let sample = "\"CurrentCapacity\" = 10\n\"CurrentCapacity\" = 55\n\"TimeRemaining\" = 65535\n\"IsCharging\" = YES\n\"FullyCharged\" = yes\n\"CycleCount\" = -4\nnot a field\n\"Amperage\" = 250";
    let bat = parse_macos_ioreg_battery(sample).expect("battery parsed");
    assert_eq!(bat.charge_text, "55");
    assert_eq!(bat.time_remaining_min, None);
    assert!(bat.is_charging);
    assert!(bat.fully_charged);
    assert_eq!(bat.cycle_count, None);
    assert_eq!(bat.amperage_ma, Some(250));
    assert_eq!(bat.health_text, None);
}

#[test]
fn parses_pmset_source_ac_and_battery() {
    let bat_sample = "Now drawing from 'Battery Power'\n -InternalBattery-0\t75%; discharging; 4:23 remaining present: true";
    assert_eq!(parse_macos_pmset_source(bat_sample), PowerSource::Battery);
    let ac_sample = "Now drawing from 'AC Power'";
    assert_eq!(parse_macos_pmset_source(ac_sample), PowerSource::Ac);
}

#[test]
fn pmset_source_unknown_cases() {
    assert_eq!(parse_macos_pmset_source(""), PowerSource::Unknown);
    assert_eq!(parse_macos_pmset_source("Now drawing from 'UPS Power'"), PowerSource::Unknown);
    assert_eq!(parse_macos_pmset_source("Now drawing from 'AC Power"), PowerSource::Unknown);
    assert_eq!(
        parse_macos_pmset_source("junk\r\nNow drawing from 'Battery Power'\r\n"),
        PowerSource::Battery
    );
}

#[test]
fn pmset_no_throttle_returns_100() {
    let healthy = "Note: No thermal warning level has been recorded";
    assert_eq!(parse_macos_pmset_throttle(healthy), 100);
    let throttled = "CPU_Scheduler_Limit \t= 100\nCPU_Available_CPUs \t= 14\nCPU_Speed_Limit \t= 87";
    assert_eq!(parse_macos_pmset_throttle(throttled), 87);
}

#[test]
fn pmset_throttle_skips_unreadable_limits() {
    assert_eq!(parse_macos_pmset_throttle("CPU_Speed_Limit = abc\nCPU_Speed_Limit = 42"), 42);
    assert_eq!(parse_macos_pmset_throttle("  CPU_Speed_Limit=+7  "), 7);
    assert_eq!(parse_macos_pmset_throttle("CPU_Speed_Limit 55"), 100);
}

fn battery_files() -> BatteryFiles {
    BatteryFiles {
        capacity: Some("87\n".into()),
        status: Some("charging\n".into()),
        cycle_count: Some("12\n".into()),
        voltage_now: Some("12500000\n".into()),
        current_now: Some("-1500999\n".into()),
        temp: Some("301\n".into()),
        energy_full_design: Some("50000000\n".into()),
        energy_full: Some("45000000\n".into()),
    }
}

#[test]
fn linux_battery_fields() {
    let b = parse_linux_battery(&battery_files());
    assert_eq!(b.charge_text.as_deref(), Some("87"));
    assert!(b.is_charging);
    assert!(!b.fully_charged);
    assert_eq!(b.cycle_count, Some(12));
    assert_eq!(b.voltage_text.as_deref(), Some("12500000"));
    // Division rounds toward zero: -1500999 µA → -1500 mA.
    assert_eq!(b.amperage_ma, Some(-1500));
    assert_eq!(b.temp_text.as_deref(), Some("301"));
    assert_eq!(b.energy_full_text.as_deref(), Some("45000000"));
    let empty = BatteryFiles {
        capacity: None,
        status: Some("Full".into()),
        cycle_count: None,
        voltage_now: None,
        current_now: Some("x".into()),
        temp: None,
        energy_full_design: None,
        energy_full: None,
    };
    let b = parse_linux_battery(&empty);
    assert!(b.fully_charged);
    assert_eq!(b.amperage_ma, None);
    assert_eq!(b.charge_text, None);
}

fn supply(kind: &str, online: Option<&str>) -> SupplyFiles {
    SupplyFiles {
        supply_type: Some(format!("{}\n", kind)),
        online: online.map(|s| s.to_string()),
        battery: battery_files(),
    }
}

#[test]
fn linux_supplies_pick_source_and_battery() {
    let scan = scan_linux_supplies(&vec![supply("Battery", None), supply("Mains", Some("0\n"))]);
    assert_eq!(scan.source, PowerSource::Battery);
    assert_eq!(scan.battery_index, Some(0));
    assert!(scan.battery.is_some());

    let scan = scan_linux_supplies(&vec![supply("UPS", Some("1")), supply("Battery", None)]);
    assert_eq!(scan.source, PowerSource::Ac);
    assert_eq!(scan.battery_index, Some(1));

    let scan = scan_linux_supplies(&vec![
        supply("Mains", Some("0")),
        supply("Battery", None),
        supply("Battery", None),
    ]);
    assert_eq!(scan.source, PowerSource::Battery);
    assert_eq!(scan.battery_index, Some(1));

    let scan = scan_linux_supplies(&vec![supply("USB", Some("1"))]);
    assert_eq!(scan.source, PowerSource::Unknown);
    assert!(scan.battery.is_none());
    assert_eq!(scan.battery_index, None);
}

#[test]
fn thermal_zone_entries() {
    let z = thermal_zone("thermal_zone0", &Some("x86_pkg_temp\n".into()), &Some("45000\n".into()))
        .expect("zone");
    assert_eq!(z.name, "x86_pkg_temp");
    assert_eq!(z.temp_milli, 45000);
    let z = thermal_zone("thermal_zone3", &None, &Some("oops".into())).expect("zone");
    assert_eq!(z.name, "thermal_zone3");
    assert_eq!(z.temp_milli, 0);
    assert!(thermal_zone("cooling_device0", &None, &None).is_none());
}

fn fan(exists: bool, input: &str, label: Option<&str>, target: Option<&str>) -> FanFiles {
    FanFiles {
        exists,
        input: Some(input.to_string()),
        label: label.map(|s| s.to_string()),
        target: target.map(|s| s.to_string()),
    }
}

#[test]
fn fans_stop_at_first_missing_and_skip_idle() {
    let fans = chip_fans(&vec![
        fan(true, "1200\n", Some("CPU Fan\n"), Some("1500")),
        fan(true, "0", None, None),
        fan(true, "800", None, None),
        fan(false, "900", None, None),
        fan(true, "700", None, None),
    ]);
    assert_eq!(fans.len(), 2);
    assert_eq!(fans[0].name, "CPU Fan");
    assert_eq!(fans[0].rpm, 1200);
    assert_eq!(fans[0].target_rpm, Some(1500));
    assert_eq!(fans[1].name, "fan3");
    assert_eq!(fans[1].rpm, 800);
    assert_eq!(fans[1].target_rpm, None);
}

#[test]
fn fans_scan_at_most_eight() {
    let files: Vec<FanFiles> = (0..10).map(|_| fan(true, "100", None, None)).collect();
    let fans = chip_fans(&files);
    assert_eq!(fans.len(), 8);
    assert_eq!(fans[7].name, "fan8");
}

#[test]
fn power_collector_caches_within_refresh_window() {
    let mut c = PowerCollector::new(0u32);
    assert!(c.due(0));
    assert_eq!(*c.sample(10, Some(1)), 1);
    assert!(!c.due(10 + 4_999_999_999));
    assert_eq!(*c.sample(10 + 4_999_999_999, Some(2)), 1);
    assert!(c.due(10 + 5_000_000_000));
    assert_eq!(*c.sample(10 + 5_000_000_000, Some(3)), 3);

    let mut t = RefreshTimer::new(2_000);
    assert!(t.stale(0));
    t.mark(100);
    assert!(!t.stale(2_099));
    assert!(t.stale(2_100));
    assert!(!t.stale(50));
}

#[test]
fn cache_short_circuits_within_refresh_window() {
    // The process-bandwidth cache re-collects only when its timer is stale.
    let mut t = RefreshTimer::new(2_000_000_000);
    if t.stale(1_000) {
        t.mark(1_000);
    }
    let first_at = t.last_sample_at;
    if t.stale(1_000 + 500_000_000) {
        t.mark(1_000 + 500_000_000);
    }
    assert_eq!(t.last_sample_at, first_at);
    assert_eq!(first_at, Some(1_000));
}
