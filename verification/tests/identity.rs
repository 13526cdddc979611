//! Which entry of the configuration belongs to a device.

use openlogi::binding::action::Action;
use openlogi::binding::button::ButtonId;
use openlogi::config::device::{DeviceConfig, LinkConfig};
use openlogi::config::settings::{LightSettings, Lighting};
use openlogi::config::identity::canonical_device_key;
use openlogi::config::Config;
use openlogi::device::Capabilities;
use openlogi::device_order::{DeviceIdentity, DeviceStableId, PhysicalDeviceKey};
use openlogi::hid::Dpi;
use openlogi::ordered::OrderedMap;

fn bound(button: ButtonId, action: Action) -> OrderedMap<ButtonId, Action> {
    let mut bindings = OrderedMap::new();
    bindings.insert(button, action);
    bindings
}

fn profile(
    app: &str,
    bindings: OrderedMap<ButtonId, Action>,
) -> OrderedMap<String, OrderedMap<ButtonId, Action>> {
    let mut profiles = OrderedMap::new();
    profiles.insert(app.to_string(), bindings);
    profiles
}

fn cabled() -> DeviceStableId {
    DeviceStableId::Direct {
        vendor_id: 0x046d,
        product_id: 0xc08d,
        identity: DeviceIdentity::Unit([0x6b, 0xe9, 0xd3, 0x00]),
    }
}

fn on_receiver() -> DeviceStableId {
    DeviceStableId::Bolt {
        receiver_uid: "82839805".to_string(),
        slot: 1,
    }
}

#[test]
fn a_known_unit_keys_the_entry_directly() {
    let config = Config::default();
    let unit = DeviceIdentity::Unit([0x6b, 0xe9, 0xd3, 0x00]);
    let key = config
        .resolve_device_key(&cabled(), Some(&unit))
        .expect("a non-zero unit is a physical identity");
    assert_eq!(key.as_str(), "unit:6be9d300");
}

#[test]
fn the_same_unit_resolves_alike_on_either_route() {
    // The whole point: one mouse, two routes, one entry.
    let config = Config::default();
    let unit = DeviceIdentity::Unit([0x6b, 0xe9, 0xd3, 0x00]);
    assert_eq!(
        config.resolve_device_key(&cabled(), Some(&unit)),
        config.resolve_device_key(&on_receiver(), Some(&unit)),
    );
}

fn litra() -> DeviceStableId {
    DeviceStableId::RawHid {
        vendor_id: 0x046d,
        product_id: 0xc901,
        usage_page: 0xff43,
        usage_id: 0x0202,
        identity: "serial:beam-1".to_string(),
    }
}

#[test]
fn settings_still_under_the_pre_upgrade_key_are_read_from_it() {
    // The upgrade path the agent lives through: the load-time migration
    // deliberately leaves `receiver:` keys alone, and only the GUI folds
    // them. Answering with `unit:6be9d300` here would hand the agent an
    // empty entry, so every receiver-paired device would silently revert
    // to default bindings and DPI until the user next opened the GUI.
    let mut config = Config::default();
    config.devices.insert(
        "receiver:82839805:slot:1".to_string(),
        DeviceConfig {
            dpi: Some(Dpi::new(3200)),
            ..DeviceConfig::default()
        },
    );

    let unit = DeviceIdentity::Unit([0x6b, 0xe9, 0xd3, 0x00]);
    let key = config
        .resolve_device_key(&on_receiver(), Some(&unit))
        .expect("resolves");
    assert_eq!(key.as_str(), "receiver:82839805:slot:1");
    assert_eq!(
        config.devices.get(key.as_str()).expect("an entry").dpi,
        Some(Dpi::new(3200)),
        "the settings are where the key says they are"
    );
}

#[test]
fn a_standalone_raw_entry_keeps_its_light_settings() {
    // A Litra has no migration at all: its key would move from
    // `raw:…:serial:beam-1` to `serial:beam-1` the moment the identity
    // won, orphaning the light settings the user configured.
    let mut config = Config::default();
    config.devices.insert(
        "raw:046d:c901:ff43:0202:serial:beam-1".to_string(),
        DeviceConfig {
            light: Some(LightSettings::default()),
            ..DeviceConfig::default()
        },
    );

    let serial = DeviceIdentity::Serial("beam-1".to_string());
    let key = config
        .resolve_device_key(&litra(), Some(&serial))
        .expect("resolves");
    assert_eq!(key.as_str(), "raw:046d:c901:ff43:0202:serial:beam-1");
}

#[test]
fn a_canonical_entry_holding_only_metadata_does_not_shadow_the_legacy_one() {
    // `persist_identities` and the `links` index write entries on their
    // own. Neither is a user setting, so neither may out-rank the entry
    // that actually holds the bindings.
    let mut config = Config::default();
    config.devices.insert(
        "receiver:82839805:slot:1".to_string(),
        DeviceConfig {
            dpi: Some(Dpi::new(3200)),
            ..DeviceConfig::default()
        },
    );
    let mut bare = DeviceConfig::default();
    bare.links.insert(
        "receiver:82839805:slot:1".to_string(),
        LinkConfig::default(),
    );
    config.devices.insert("unit:6be9d300".to_string(), bare);

    let unit = DeviceIdentity::Unit([0x6b, 0xe9, 0xd3, 0x00]);
    let key = config
        .resolve_device_key(&on_receiver(), Some(&unit))
        .expect("resolves");
    assert_eq!(key.as_str(), "receiver:82839805:slot:1");
}

#[test]
fn a_canonical_entry_with_settings_wins_over_a_legacy_one() {
    // Once adoption (or a plain first-run write) has put real settings
    // under the identity key, that is the answer — the legacy entry is a
    // leftover the next fold will consume.
    let mut config = Config::default();
    config.devices.insert(
        "receiver:82839805:slot:1".to_string(),
        DeviceConfig {
            dpi: Some(Dpi::new(3200)),
            ..DeviceConfig::default()
        },
    );
    config.devices.insert(
        "unit:6be9d300".to_string(),
        DeviceConfig {
            dpi: Some(Dpi::new(800)),
            ..DeviceConfig::default()
        },
    );

    let unit = DeviceIdentity::Unit([0x6b, 0xe9, 0xd3, 0x00]);
    let key = config
        .resolve_device_key(&on_receiver(), Some(&unit))
        .expect("resolves");
    assert_eq!(key.as_str(), "unit:6be9d300");
}

#[test]
fn the_route_key_is_the_legacy_entry_key_for_every_variant_but_direct() {
    // `adopt_route` finds a legacy entry with `devices.remove(route_key)`,
    // which only works because a Bolt/RawHid/Unknown route key *is* the
    // key such an entry was written under. A Direct route key deliberately
    // is not: its identity moved into the entry key, which is exactly why
    // the load-time migration can rename direct entries and
    // cannot rename the others. Three doc comments say so; this asserts it.
    for stable in [on_receiver(), litra()] {
        let physical = stable.physical_key().expect("physical");
        assert_eq!(
            stable.route_key(),
            physical.as_str(),
            "{stable:?}: the route key must find the legacy entry"
        );
    }
    let unknown = DeviceStableId::Unknown {
        slot: 2,
        identity: DeviceIdentity::Unit([0x6b, 0xe9, 0xd3, 0x00]),
    };
    assert_eq!(
        unknown.route_key(),
        unknown.physical_key().expect("physical").as_str()
    );

    let direct = cabled();
    assert_ne!(
        direct.route_key(),
        direct.physical_key().expect("physical").as_str(),
        "a direct route key drops the identity that keys the entry"
    );
}

#[test]
fn adoption_repoints_the_selection_and_any_host_switch_target() {
    // Adoption is a rename, and a device key lives in three places. A
    // stale `selected_device` silently jumps the carousel to the first
    // device; a stale host-switch target silently drops out of the group.
    let mut config = Config::default();
    config.devices.insert(
        "receiver:82839805:slot:1".to_string(),
        DeviceConfig {
            dpi: Some(Dpi::new(800)),
            ..DeviceConfig::default()
        },
    );
    config.devices.insert(
        "receiver:82839805:slot:2".to_string(),
        DeviceConfig {
            host_switch_targets: vec!["receiver:82839805:slot:1".to_string()],
            ..DeviceConfig::default()
        },
    );
    config.selected_device = Some("receiver:82839805:slot:1".to_string());

    let canonical = PhysicalDeviceKey::parse("unit:6be9d300").expect("valid");
    assert!(config.adopt_route(&canonical, "receiver:82839805:slot:1", None));

    assert_eq!(config.selected_device.as_deref(), Some("unit:6be9d300"));
    assert_eq!(
        config.devices.get("receiver:82839805:slot:2").expect("an entry").host_switch_targets,
        vec!["unit:6be9d300".to_string()],
        "the keyboard still switches the mouse it was linked to"
    );
}

#[test]
fn an_asleep_device_resolves_through_its_indexed_route() {
    // Offline: no unit id was readable, only the receiver slot. The links
    // table recorded on an earlier online sighting is the only way back
    // to the entry.
    let mut config = Config::default();
    let mut device = DeviceConfig::default();
    device.links.insert(
        "receiver:82839805:slot:1".to_string(),
        LinkConfig::default(),
    );
    config.devices.insert("unit:6be9d300".to_string(), device);

    let key = config
        .resolve_device_key(&on_receiver(), None)
        .expect("the indexed route resolves");
    assert_eq!(key.as_str(), "unit:6be9d300");
}

#[test]
fn an_unindexed_route_falls_back_to_todays_key() {
    let config = Config::default();
    let key = config
        .resolve_device_key(&on_receiver(), None)
        .expect("receiver keys are physical");
    assert_eq!(key.as_str(), "receiver:82839805:slot:1");
}

#[test]
fn an_all_zero_unit_over_a_receiver_keeps_its_route_key() {
    // Not every device reports a unit id. Such a device simply never
    // correlates across transports rather than colliding on `unit:00000000`.
    let config = Config::default();
    let zero = DeviceIdentity::Unit([0; 4]);
    let key = config
        .resolve_device_key(&on_receiver(), Some(&zero))
        .expect("falls back rather than failing");
    assert_eq!(key.as_str(), "receiver:82839805:slot:1");
}

#[test]
fn a_direct_device_with_no_identity_stays_non_persistent() {
    let config = Config::default();
    let anonymous = DeviceStableId::Direct {
        vendor_id: 0x046d,
        product_id: 0xc08d,
        identity: DeviceIdentity::Unit([0; 4]),
    };
    assert_eq!(config.resolve_device_key(&anonymous, None), None);
}

#[test]
fn folding_takes_a_custom_name_the_canonical_entry_lacks() {
    // The alias is the one field in an entry the user typed by hand. A
    // legacy entry carrying it must not lose it to a canonical entry that
    // was created by, say, a first DPI write and never named.
    let mut config = Config::default();
    let legacy = DeviceConfig {
        custom_name: Some("Desk mouse".to_string()),
        ..DeviceConfig::default()
    };
    config
        .devices
        .insert("receiver:82839805:slot:1".to_string(), legacy);
    config
        .devices
        .insert("unit:6be9d300".to_string(), DeviceConfig::default());

    let canonical = PhysicalDeviceKey::parse("unit:6be9d300").expect("valid");
    assert!(config.adopt_route(&canonical, "receiver:82839805:slot:1", None));

    assert_eq!(
        config.devices.get("unit:6be9d300").expect("an entry").custom_name.as_deref(),
        Some("Desk mouse"),
        "the user's alias survives the fold"
    );
}

#[test]
fn folding_preserves_a_legacy_touchpad_opt_in() {
    let mut config = Config::default();
    let mut legacy = DeviceConfig::default();
    legacy.touchpad_gestures.enabled = true;
    config
        .devices
        .insert("receiver:82839805:slot:1".to_string(), legacy);
    config
        .devices
        .insert("unit:6be9d300".to_string(), DeviceConfig::default());

    let canonical = PhysicalDeviceKey::parse("unit:6be9d300").expect("valid");
    assert!(config.adopt_route(&canonical, "receiver:82839805:slot:1", None));

    assert!(config.devices.get("unit:6be9d300").expect("an entry").touchpad_gestures.enabled);
}

#[test]
fn folding_keeps_the_canonical_custom_name_when_both_are_named() {
    // Two names cannot be merged and there is no per-link slot for one, so
    // the canonical entry wins. `fold` logs the loss rather than dropping
    // it silently; this pins which of the two survives.
    let mut config = Config::default();
    let legacy = DeviceConfig {
        custom_name: Some("Old name".to_string()),
        ..DeviceConfig::default()
    };
    let canonical_entry = DeviceConfig {
        custom_name: Some("Current name".to_string()),
        ..DeviceConfig::default()
    };
    config
        .devices
        .insert("receiver:82839805:slot:1".to_string(), legacy);
    config
        .devices
        .insert("unit:6be9d300".to_string(), canonical_entry);

    let canonical = PhysicalDeviceKey::parse("unit:6be9d300").expect("valid");
    assert!(config.adopt_route(&canonical, "receiver:82839805:slot:1", None));

    assert_eq!(
        config.devices.get("unit:6be9d300").expect("an entry").custom_name.as_deref(),
        Some("Current name"),
        "the canonical alias wins a genuine conflict"
    );
}

#[test]
fn adopting_a_route_folds_the_legacy_entry_in() {
    // The lighting configured over the receiver has to survive onto the
    // cable — that is the user-visible bug this whole change exists for.
    let mut config = Config::default();
    let legacy = DeviceConfig {
        lighting: Some(Lighting::default()),
        ..DeviceConfig::default()
    };
    config
        .devices
        .insert("receiver:82839805:slot:1".to_string(), legacy);
    config
        .devices
        .insert("unit:6be9d300".to_string(), DeviceConfig::default());

    let canonical = PhysicalDeviceKey::parse("unit:6be9d300").expect("valid");
    assert!(config.adopt_route(&canonical, "receiver:82839805:slot:1", None));

    let device = &config.devices.get("unit:6be9d300").expect("an entry");
    assert!(device.lighting.is_some(), "lighting moved to device level");
    assert!(device.links.contains_key("receiver:82839805:slot:1"));
    assert!(
        !config.devices.contains_key("receiver:82839805:slot:1"),
        "the legacy entry is consumed, not left behind"
    );
}

#[test]
fn a_sighting_records_what_the_link_measured() {
    // Without this the per-link table only ever gets capabilities from a
    // migration fold, so the "supported on your other connection" notice
    // could never appear for anyone who installed at schema 5.
    let mut config = Config::default();
    let canonical = PhysicalDeviceKey::parse("unit:6be9d300").expect("valid");
    let wired = Capabilities {
        hires_wheel: false,
        ..Capabilities::default()
    };
    let wireless = Capabilities {
        hires_wheel: true,
        ..Capabilities::default()
    };

    assert!(config.adopt_route(&canonical, "direct:046d:c08d", Some(wired)));
    assert!(config.adopt_route(&canonical, "receiver:82839805:slot:1", Some(wireless)));

    let links = &config.devices.get("unit:6be9d300").expect("an entry").links;
    assert_eq!(links.get("direct:046d:c08d").expect("a link").capabilities, Some(wired));
    assert_eq!(
        links.get("receiver:82839805:slot:1").expect("a link").capabilities,
        Some(wireless)
    );

    // Re-sighting the same route with the same answer is not a change:
    // reporting one would persist the config on every poll.
    assert!(!config.adopt_route(&canonical, "direct:046d:c08d", Some(wired)));
    // An unprobed sighting is not evidence the capability went away.
    assert!(!config.adopt_route(&canonical, "direct:046d:c08d", None));
    assert_eq!(
        config.devices.get("unit:6be9d300").expect("an entry").links.get("direct:046d:c08d").expect("a link").capabilities,
        Some(wired)
    );
}

#[test]
fn a_conflicting_value_becomes_a_per_link_override() {
    // Both sides set a DPI and they disagree. Neither is wrong — the user
    // set each one — so the legacy value survives as an override on its
    // own link rather than being overwritten.
    let mut config = Config::default();
    let legacy = DeviceConfig {
        dpi: Some(Dpi::new(800)),
        ..DeviceConfig::default()
    };
    config
        .devices
        .insert("receiver:82839805:slot:1".to_string(), legacy);
    let canonical_entry = DeviceConfig {
        dpi: Some(Dpi::new(1600)),
        ..DeviceConfig::default()
    };
    config
        .devices
        .insert("unit:6be9d300".to_string(), canonical_entry);

    let canonical = PhysicalDeviceKey::parse("unit:6be9d300").expect("valid");
    config.adopt_route(&canonical, "receiver:82839805:slot:1", None);

    let device = &config.devices.get("unit:6be9d300").expect("an entry");
    assert_eq!(device.dpi, Some(Dpi::new(1600)), "canonical stays default");
    assert_eq!(
        device.links.get("receiver:82839805:slot:1").expect("a link").overrides.dpi,
        Some(Dpi::new(800)),
        "the legacy value survives on its own link"
    );
}

#[test]
fn adopting_an_unseen_route_registers_it_and_reports_a_change() {
    // No legacy entry to fold in, but a new route in the links index is
    // itself a change worth persisting — the return value means "did
    // anything change", not "was a legacy entry folded".
    let mut config = Config::default();
    config
        .devices
        .insert("unit:6be9d300".to_string(), DeviceConfig::default());
    let canonical = PhysicalDeviceKey::parse("unit:6be9d300").expect("valid");

    assert!(config.adopt_route(&canonical, "direct:046d:c08d", None));
    assert!(
        config.devices.get("unit:6be9d300").expect("an entry")
            .links
            .contains_key("direct:046d:c08d")
    );
}

#[test]
fn adopting_an_already_indexed_route_reports_no_change() {
    // The route is already recorded and there is no legacy entry to
    // fold — calling `adopt_route` again must be a safe no-op that
    // reports nothing changed, so a caller polling every refresh does
    // not persist and reload on every tick.
    let mut config = Config::default();
    let mut device = DeviceConfig::default();
    device
        .links
        .insert("direct:046d:c08d".to_string(), LinkConfig::default());
    config.devices.insert("unit:6be9d300".to_string(), device);
    let canonical = PhysicalDeviceKey::parse("unit:6be9d300").expect("valid");

    assert!(!config.adopt_route(&canonical, "direct:046d:c08d", None));
}

#[test]
fn a_re_paired_slot_points_at_the_new_unit() {
    // Unpair mouse A from slot 1, pair mouse B into it. Today B inherits
    // A's bindings because the key *is* the slot. It must not.
    let mut config = Config::default();
    let mut first = DeviceConfig::default();
    first.links.insert(
        "receiver:82839805:slot:1".to_string(),
        LinkConfig::default(),
    );
    config.devices.insert("unit:aaaaaaaa".to_string(), first);
    config
        .devices
        .insert("unit:bbbbbbbb".to_string(), DeviceConfig::default());

    let second = PhysicalDeviceKey::parse("unit:bbbbbbbb").expect("valid");
    config.adopt_route(&second, "receiver:82839805:slot:1", None);

    assert!(
        !config.devices.get("unit:aaaaaaaa").expect("an entry")
            .links
            .contains_key("receiver:82839805:slot:1"),
        "the route no longer points at the previous unit"
    );
    assert!(
        config.devices.get("unit:bbbbbbbb").expect("an entry")
            .links
            .contains_key("receiver:82839805:slot:1")
    );
}

#[test]
fn per_app_bindings_merge_key_by_key() {
    // A route-keyed entry could carry an app overlay the canonical side
    // never bound — the fold must not silently drop it.
    let mut config = Config::default();
    let legacy = DeviceConfig {
        per_app_bindings: profile("com.example.App", bound(ButtonId::MiddleClick, Action::Copy)),
        ..DeviceConfig::default()
    };
    config
        .devices
        .insert("receiver:82839805:slot:1".to_string(), legacy);
    config
        .devices
        .insert("unit:6be9d300".to_string(), DeviceConfig::default());

    let canonical = PhysicalDeviceKey::parse("unit:6be9d300").expect("valid");
    config.adopt_route(&canonical, "receiver:82839805:slot:1", None);

    let device = &config.devices.get("unit:6be9d300").expect("an entry");
    assert_eq!(
        device.per_app_bindings.get("com.example.App"),
        Some(&bound(ButtonId::MiddleClick, Action::Copy)),
        "the app overlay survives adoption"
    );
}

#[test]
fn light_is_taken_when_the_canonical_side_has_none() {
    // `light` (standalone-light settings) has no per-link override slot,
    // unlike `lighting` — it must still be taken rather than dropped.
    let mut config = Config::default();
    let legacy = DeviceConfig {
        light: Some(LightSettings::default()),
        ..DeviceConfig::default()
    };
    config
        .devices
        .insert("receiver:82839805:slot:1".to_string(), legacy);
    config
        .devices
        .insert("unit:6be9d300".to_string(), DeviceConfig::default());

    let canonical = PhysicalDeviceKey::parse("unit:6be9d300").expect("valid");
    config.adopt_route(&canonical, "receiver:82839805:slot:1", None);

    assert_eq!(
        config.devices.get("unit:6be9d300").expect("an entry").light,
        Some(LightSettings::default()),
        "the standalone-light setting is not silently discarded"
    );
}

#[test]
fn a_legacy_disabled_flag_disables_the_canonical_entry() {
    // `enabled` defaults to `true` and is only ever persisted as `false`,
    // so a legacy `false` is a deliberate "leave this device alone"
    // choice that adoption must not silently override.
    let mut config = Config::default();
    let legacy = DeviceConfig {
        enabled: false,
        ..DeviceConfig::default()
    };
    config
        .devices
        .insert("receiver:82839805:slot:1".to_string(), legacy);
    config
        .devices
        .insert("unit:6be9d300".to_string(), DeviceConfig::default());

    let canonical = PhysicalDeviceKey::parse("unit:6be9d300").expect("valid");
    config.adopt_route(&canonical, "receiver:82839805:slot:1", None);

    assert!(
        !config.devices.get("unit:6be9d300").expect("an entry").enabled,
        "the legacy opt-out survives adoption"
    );
}

#[test]
fn the_key_in_the_end_is_the_devices_own_where_it_has_one() {
    let unit = DeviceIdentity::Unit([0x6b, 0xe9, 0xd3, 0x00]);
    assert_eq!(
        canonical_device_key(&on_receiver(), Some(&unit)).map(|key| key.into_string()),
        Some("unit:6be9d300".to_string())
    );
    assert_eq!(
        canonical_device_key(&on_receiver(), None).map(|key| key.into_string()),
        Some("receiver:82839805:slot:1".to_string())
    );
}
