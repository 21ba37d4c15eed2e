use syswatch::gpu::{discover_from_drm, discover_from_system_profiler, vram_parts, DrmEntry, GpuDiscovery};

#[test]
fn system_profiler_json_gives_devices() {
    let text = r#"{"SPDisplaysDataType":[
        {"sppci_model":"Apple M2 Pro","spdisplays_vendor":"sppci_vendor_Apple",
         "spdisplays_vram_shared":"16 GB","spdisplays_metalfamily":"spdisplays_metal3"},
        {"_name":"Radeon","spdisplays_vendor":"0x1002","spdisplays_vram":"8192 MB",
         "spdisplays_mtlgpufamilysupport":"spdisplays_metal2"},
        {"sppci_model":42,"_name":"ignored"}
    ]}"#;
    let devs = discover_from_system_profiler(text);
    assert_eq!(devs.len(), 3);
    assert_eq!(devs[0].name, "Apple M2 Pro");
    assert_eq!(devs[0].vendor, "Apple");
    assert_eq!(devs[0].vram_text.as_deref(), Some("16 GB"));
    assert_eq!(devs[0].driver.as_deref(), Some("spdisplays_metal3"));
    assert!(devs[0].live_data_hint.as_deref().unwrap().contains("powermetrics"));
    assert_eq!(devs[1].name, "Radeon");
    assert_eq!(devs[1].vendor, "1002");
    assert_eq!(devs[1].vram_text.as_deref(), Some("8192 MB"));
    assert_eq!(devs[1].driver.as_deref(), Some("spdisplays_metal2"));
    // A present but non-string model does not fall back to `_name`.
    assert_eq!(devs[2].name, "Unknown GPU");
    assert_eq!(devs[2].vendor, "Apple");
    assert_eq!(devs[2].vram_text, None);
}

#[test]
fn unreadable_system_profiler_output_gives_nothing() {
    assert!(discover_from_system_profiler("not json").is_empty());
    assert!(discover_from_system_profiler("{}").is_empty());
    assert!(discover_from_system_profiler(r#"{"SPDisplaysDataType": 3}"#).is_empty());
}

fn entry(name: &str, vendor: Option<&str>, device: Option<&str>) -> DrmEntry {
    DrmEntry {
        name: name.to_string(),
        vendor: vendor.map(|s| s.to_string()),
        device: device.map(|s| s.to_string()),
    }
}

#[test]
fn drm_cards_give_devices() {
    let devs = discover_from_drm(&vec![
        entry("card0", Some("0x1002\n"), Some("0x73bf\n")),
        entry("card0-DP-1", Some("0x1002\n"), Some("0x73bf\n")),
        entry("renderD128", None, None),
        entry("card1", Some("0x8086"), None),
        entry("card2", Some("0xabcd"), Some("0x1")),
    ]);
    assert_eq!(devs.len(), 3);
    assert_eq!(devs[0].name, "AMD 0x73bf");
    assert_eq!(devs[0].vendor, "AMD");
    assert_eq!(devs[1].name, "Intel Unknown");
    assert_eq!(devs[2].vendor, "Unknown");
    assert!(devs[2].live_data_hint.as_deref().unwrap().contains("gpu_busy_percent"));
}

#[test]
fn refresh_clears_the_hint_for_live_devices() {
    let devs = discover_from_drm(&vec![
        entry("card0", Some("0x10de"), Some("0x2204")),
        entry("card1", Some("0x10de"), Some("0x2204")),
    ]);
    let d = GpuDiscovery::new(devs);
    let out = d.refresh(&vec![false, true]);
    assert_eq!(out.len(), 2);
    assert!(out[0].live_data_hint.is_some());
    assert!(out[1].live_data_hint.is_none());
    assert_eq!(out[1].name, "NVIDIA 0x2204");
    let out = d.refresh(&vec![]);
    assert!(out.iter().all(|g| g.live_data_hint.is_some()));
}

#[test]
fn vram_strings_split_into_number_and_unit() {
    assert_eq!(vram_parts("16 GB"), Some(("16".to_string(), 1024 * 1024 * 1024)));
    assert_eq!(vram_parts("  8192 mb "), Some(("8192".to_string(), 1024 * 1024)));
    assert_eq!(vram_parts("512 Kb extra"), Some(("512".to_string(), 1024)));
    assert_eq!(vram_parts("1024"), Some(("1024".to_string(), 1)));
    assert_eq!(vram_parts("1.5 TB"), Some(("1.5".to_string(), 1)));
    assert_eq!(vram_parts("   "), None);
}
