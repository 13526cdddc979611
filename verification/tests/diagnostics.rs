//! The diagnostics report.

use openlogi::device::{
    BatteryInfo, BatteryLevel, BatteryStatus, Capabilities, DeviceKind, DeviceTransports,
};
use openlogi::diagnostics::{
    AppInfo, AssetInfo, AssetSource, ConnectionKind, DeviceDiag, DiagnosticsReport, InventoryState,
    ReceiverDiag, RenderState,
};

fn app() -> AppInfo {
    AppInfo {
        gui_version: "0.6.6".to_string(),
        build_profile: "release".to_string(),
        agent_version: Some("0.6.6".to_string()),
        protocol_gui: 1,
        protocol_agent: Some(1),
        inventory: Some(InventoryState::Ready),
        os: "macos".to_string(),
        os_version: Some("15.5".to_string()),
        arch: "arm64".to_string(),
        system_locale: Some("en-US".to_string()),
        ui_language: None,
        accessibility_granted: true,
        hook_installed: Some(true),
        launch_at_login: Some(true),
        show_in_menu_bar: Some(true),
        check_for_updates: Some(false),
        thumbwheel_sensitivity: Some(0),
        config_schema_version: Some(2),
        configured_device_count: Some(3),
        running_from_bundle: true,
    }
}

fn assets() -> AssetInfo {
    AssetInfo {
        source: AssetSource::Bundle,
        index_loaded: true,
        index_entries: Some(142),
        user_cache_present: true,
        cache_path: "~/.local/share/openlogi/assets".to_string(),
        bundle_present: true,
    }
}

fn sample() -> DiagnosticsReport {
    DiagnosticsReport {
        app: app(),
        assets: assets(),
        receivers: vec![ReceiverDiag {
            name: "Logi Bolt".to_string(),
            vendor_id: 0x046d,
            product_id: 0xc548,
        }],
        devices: vec![
            DeviceDiag {
                display_name: "MX Keys".to_string(),
                kind: DeviceKind::Keyboard,
                codename: Some("MX Keys".to_string()),
                connection: ConnectionKind::BoltReceiver,
                online: true,
                battery: Some(BatteryInfo {
                    percentage: 80,
                    level: BatteryLevel::Good,
                    status: BatteryStatus::Discharging,
                }),
                capabilities: Some(Capabilities::default()),
                dpi: None,
                config_key: "2b35a".to_string(),
                wpid: Some(0x4093),
                model_ids: Some([0xb35a, 0, 0]),
                extended_model_id: Some(0x02),
                transports: Some(DeviceTransports {
                    equad: true,
                    ..DeviceTransports::default()
                }),
                render: RenderState::Silhouette,
                slot: 2,
            },
            DeviceDiag {
                display_name: "MX Master 3S".to_string(),
                kind: DeviceKind::Mouse,
                codename: Some("MX Master 3S".to_string()),
                connection: ConnectionKind::Wired,
                online: false,
                battery: None,
                capabilities: Some(Capabilities {
                    buttons: true,
                    pointer: true,
                    lighting: false,
                    scroll_inversion: false,
                    hires_wheel: true,
                    thumbwheel: false,
                    haptic_feedback: false,
                    haptic_panel: false,
                    touchpad_raw_xy: false,
                }),
                dpi: Some("1600 dpi (range 200–8000, 5 steps)".to_string()),
                config_key: "4082d".to_string(),
                wpid: Some(0x4082),
                model_ids: Some([0x082d, 0, 0]),
                extended_model_id: Some(0x04),
                transports: Some(DeviceTransports {
                    usb: true,
                    ..DeviceTransports::default()
                }),
                render: RenderState::Resolved("mx_master_3s".to_string()),
                slot: 1,
            },
        ],
    }
}

#[test]
fn renders_header_and_sections() {
    let md = sample().to_markdown();
    assert!(md.starts_with("### OpenLogi Diagnostics"));
    assert!(md.contains("**App**"));
    assert!(md.contains("**Assets**"));
    assert!(md.contains("**Devices (2)**"));
    assert!(md.contains("**Receivers (1)**"));
    assert!(md.contains("- Logi Bolt (VID 046d / PID c548)"));
    assert!(md.contains("- OpenLogi (GUI): v0.6.6 (release)"));
    assert!(md.contains("- Agent: v0.6.6 (connected)"));
    assert!(md.contains("- IPC protocol: GUI 1 / agent 1"));
    assert!(md.contains("- Inventory: ready"));
    assert!(md.contains("- OS: macOS 15.5 (arm64)"));
    assert!(
        md.contains("- Source: app bundle · Index: loaded (142 models) · User cache: present")
    );
    assert!(md.contains("- Config: schema 2 · 3 configured device(s) · thumbwheel 0"));
}

#[test]
fn renders_device_detail() {
    let md = sample().to_markdown();
    assert!(md.contains("- MX Keys — keyboard (codename: MX Keys)"));
    assert!(md.contains(
        "Connection: Logi Bolt receiver · Online: yes · Battery: 80% (discharging, good)"
    ));
    assert!(md.contains("Capabilities: buttons=no, pointer=no, lighting=no"));
    assert!(md.contains("Model: 2b35a (wpid: 4093, model-ids: b35a/0000/0000, ext-model: 02)"));
    assert!(md.contains("Transports: eQuad"));
    assert!(md.contains("Render: ⚠️ none (silhouette) · Slot 2"));
    assert!(md.contains("- MX Master 3S — mouse"));
    assert!(md.contains("DPI: 1600 dpi (range 200–8000, 5 steps)"));
    assert!(md.contains("Transports: USB"));
    assert!(md.contains("Render: mx_master_3s · Slot 1"));
    assert!(md.contains("Battery: n/a"));
}

#[test]
fn flags_version_and_protocol_mismatch() {
    let mut report = sample();
    report.app.agent_version = Some("0.6.5".to_string());
    report.app.protocol_agent = Some(2);
    let md = report.to_markdown();
    assert!(md.contains("v0.6.5 (connected) ⚠️ version mismatch with GUI"));
    assert!(md.contains("GUI 1 / agent 2 ⚠️ mismatch"));
}

#[test]
fn omits_unique_identifiers_and_footer() {
    let md = sample().to_markdown();
    assert!(!md.contains("Serial"));
    assert!(!md.to_lowercase().contains("unit id"));
    assert!(!md.contains("omitted by design"));
}

#[test]
fn direct_slot_renders_as_direct() {
    let mut report = sample();
    report.devices[0].slot = 0xFF;
    let md = report.to_markdown();
    assert!(md.contains("· direct"));
    assert!(!md.contains("Slot 255"));
}

#[test]
fn unprobed_capabilities_render_not_probed() {
    let mut report = sample();
    report.devices[0].capabilities = None;
    let md = report.to_markdown();
    assert!(md.contains("  - Capabilities: not probed"));
}

#[test]
fn empty_inventory_still_renders() {
    let report = DiagnosticsReport {
        app: app(),
        assets: assets(),
        receivers: Vec::new(),
        devices: Vec::new(),
    };
    let md = report.to_markdown();
    assert!(md.contains("**Devices (0)**"));
    assert!(md.contains("- No devices detected."));
}

#[test]
fn unreachable_agent_renders_unknowns() {
    let mut report = sample();
    report.app.agent_version = None;
    report.app.protocol_agent = None;
    report.app.inventory = None;
    report.app.hook_installed = None;
    report.app.launch_at_login = None;
    let md = report.to_markdown();
    assert!(md.contains("- Agent: not connected"));
    assert!(md.contains("GUI 1 / agent —"));
    assert!(md.contains("- Inventory: —"));
    assert!(md.contains("Input hook: unknown"));
}

#[test]
fn incomplete_enumeration_is_flagged() {
    let mut report = sample();
    report.app.inventory = Some(InventoryState::Scanning);
    assert!(
        report
            .to_markdown()
            .contains("- Inventory: scanning (first enumeration in progress)")
    );
    report.app.inventory = Some(InventoryState::Unavailable);
    assert!(
        report
            .to_markdown()
            .contains("- Inventory: ⚠️ unavailable (enumeration failed — see agent log)")
    );
}
