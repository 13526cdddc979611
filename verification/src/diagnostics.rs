//! A report for support tickets.
//!
//! The report speaks of models, never of units: nothing in it can hold a serial
//! number or a unit id.

use vstd::prelude::*;
use vstd::string::{StrSliceExecFns, StringExecFns};

use crate::device::{
    BatteryInfo, BatteryLevel, BatteryStatus, Capabilities, DeviceKind, DeviceTransports,
    DIRECT_DEVICE_INDEX,
};
use crate::ordered::each;
use crate::text::{
    decimal, hexadecimal, joined_with, law_a_decimal_reads_as_its_number, number, push_decimal,
    push_hexadecimal, same_text, separated,
};

verus! {

/// Where device pictures come from.
#[derive(Clone, Copy, Debug, PartialEq, Eq, Structural)]
pub enum AssetSource {
    /// What is shipped with the application.
    Bundle,
    /// What was fetched for the user.
    UserCache,
    /// Neither was found.
    Neither,
}

/// How a device reaches the host.
#[derive(Clone, Copy, Debug, PartialEq, Eq, Structural)]
pub enum ConnectionKind {
    BoltReceiver,
    UnifyingReceiver,
    BluetoothDirect,
    Wired,
    Unknown,
}

/// Which picture a device has.
#[derive(Clone, Debug, PartialEq, Eq)]
pub enum RenderState {
    /// The picture of this depot.
    Resolved(String),
    /// A drawn outline.
    Silhouette,
}

/// How far the agent's search for devices got.
#[derive(Clone, Copy, Debug, PartialEq, Eq, Structural)]
pub enum InventoryState {
    Scanning,
    Ready,
    Unavailable,
}

/// A receiver, by model.
#[derive(Clone, Debug, PartialEq, Eq)]
pub struct ReceiverDiag {
    pub name: String,
    pub vendor_id: u16,
    pub product_id: u16,
}

/// A device, by model.
#[derive(Clone, Debug, PartialEq, Eq)]
pub struct DeviceDiag {
    pub display_name: String,
    pub kind: DeviceKind,
    pub codename: Option<String>,
    pub connection: ConnectionKind,
    pub online: bool,
    pub battery: Option<BatteryInfo>,
    pub capabilities: Option<Capabilities>,
    pub dpi: Option<String>,
    pub config_key: String,
    pub wpid: Option<u16>,
    pub model_ids: Option<[u16; 3]>,
    pub extended_model_id: Option<u8>,
    pub transports: Option<DeviceTransports>,
    pub render: RenderState,
    pub slot: u8,
}

/// The application, the agent and the host.
#[derive(Clone, Debug, PartialEq, Eq)]
pub struct AppInfo {
    pub gui_version: String,
    pub build_profile: String,
    pub agent_version: Option<String>,
    pub protocol_gui: u32,
    pub protocol_agent: Option<u32>,
    pub inventory: Option<InventoryState>,
    pub os: String,
    pub os_version: Option<String>,
    pub arch: String,
    pub system_locale: Option<String>,
    pub ui_language: Option<String>,
    pub accessibility_granted: bool,
    pub hook_installed: Option<bool>,
    pub launch_at_login: Option<bool>,
    pub show_in_menu_bar: Option<bool>,
    pub check_for_updates: Option<bool>,
    pub thumbwheel_sensitivity: Option<i32>,
    pub config_schema_version: Option<u32>,
    pub configured_device_count: Option<usize>,
    pub running_from_bundle: bool,
}

/// The state of device pictures.
#[derive(Clone, Debug, PartialEq, Eq)]
pub struct AssetInfo {
    pub source: AssetSource,
    pub index_loaded: bool,
    pub index_entries: Option<usize>,
    pub user_cache_present: bool,
    pub cache_path: String,
    pub bundle_present: bool,
}

/// The whole report.
#[derive(Clone, Debug, PartialEq, Eq)]
pub struct DiagnosticsReport {
    pub app: AppInfo,
    pub assets: AssetInfo,
    pub receivers: Vec<ReceiverDiag>,
    pub devices: Vec<DeviceDiag>,
}

/// Where device pictures come from, in words.
pub open spec fn asset_source_text(source: AssetSource) -> Seq<char> {
    match source {
        AssetSource::Bundle => "app bundle"@,
        AssetSource::UserCache => "user cache"@,
        AssetSource::Neither => "none"@,
    }
}

fn asset_source_label(source: AssetSource) -> (label: &'static str)
    ensures
        label@ == asset_source_text(source),
{
    match source {
        AssetSource::Bundle => "app bundle",
        AssetSource::UserCache => "user cache",
        AssetSource::Neither => "none",
    }
}

/// A kind of device, in words.
pub open spec fn kind_text(kind: DeviceKind) -> Seq<char> {
    match kind {
        DeviceKind::Mouse => "mouse"@,
        DeviceKind::Keyboard => "keyboard"@,
        DeviceKind::Numpad => "numpad"@,
        DeviceKind::Presenter => "presenter"@,
        DeviceKind::Remote => "remote"@,
        DeviceKind::Trackball => "trackball"@,
        DeviceKind::Touchpad => "touchpad"@,
        DeviceKind::Tablet => "tablet"@,
        DeviceKind::Gamepad => "gamepad"@,
        DeviceKind::Joystick => "joystick"@,
        DeviceKind::Headset => "headset"@,
        DeviceKind::Camera => "camera"@,
        DeviceKind::Unknown => "unknown"@,
        DeviceKind::Light => "light"@,
    }
}

fn kind_label(kind: DeviceKind) -> (label: &'static str)
    ensures
        label@ == kind_text(kind),
{
    match kind {
        DeviceKind::Mouse => "mouse",
        DeviceKind::Keyboard => "keyboard",
        DeviceKind::Numpad => "numpad",
        DeviceKind::Presenter => "presenter",
        DeviceKind::Remote => "remote",
        DeviceKind::Trackball => "trackball",
        DeviceKind::Touchpad => "touchpad",
        DeviceKind::Tablet => "tablet",
        DeviceKind::Gamepad => "gamepad",
        DeviceKind::Joystick => "joystick",
        DeviceKind::Headset => "headset",
        DeviceKind::Camera => "camera",
        DeviceKind::Unknown => "unknown",
        DeviceKind::Light => "light",
    }
}

/// A way to reach the host, in words.
pub open spec fn connection_text(connection: ConnectionKind) -> Seq<char> {
    match connection {
        ConnectionKind::BoltReceiver => "Logi Bolt receiver"@,
        ConnectionKind::UnifyingReceiver => "Logi Unifying receiver"@,
        ConnectionKind::BluetoothDirect => "Bluetooth (direct)"@,
        ConnectionKind::Wired => "Wired (USB)"@,
        ConnectionKind::Unknown => "unknown"@,
    }
}

fn connection_label(connection: ConnectionKind) -> (label: &'static str)
    ensures
        label@ == connection_text(connection),
{
    match connection {
        ConnectionKind::BoltReceiver => "Logi Bolt receiver",
        ConnectionKind::UnifyingReceiver => "Logi Unifying receiver",
        ConnectionKind::BluetoothDirect => "Bluetooth (direct)",
        ConnectionKind::Wired => "Wired (USB)",
        ConnectionKind::Unknown => "unknown",
    }
}

/// What a battery does, in words.
pub open spec fn battery_status_text(status: BatteryStatus) -> Seq<char> {
    match status {
        BatteryStatus::Discharging => "discharging"@,
        BatteryStatus::Charging => "charging"@,
        BatteryStatus::ChargingSlow => "charging (slow)"@,
        BatteryStatus::Full => "full"@,
        BatteryStatus::Error => "error"@,
        BatteryStatus::Unknown => "unknown"@,
    }
}

fn battery_status_label(status: BatteryStatus) -> (label: &'static str)
    ensures
        label@ == battery_status_text(status),
{
    match status {
        BatteryStatus::Discharging => "discharging",
        BatteryStatus::Charging => "charging",
        BatteryStatus::ChargingSlow => "charging (slow)",
        BatteryStatus::Full => "full",
        BatteryStatus::Error => "error",
        BatteryStatus::Unknown => "unknown",
    }
}

/// How full a battery is, in words.
pub open spec fn battery_level_text(level: BatteryLevel) -> Seq<char> {
    match level {
        BatteryLevel::Critical => "critical"@,
        BatteryLevel::Low => "low"@,
        BatteryLevel::Good => "good"@,
        BatteryLevel::Full => "full"@,
        BatteryLevel::Unknown => "unknown"@,
    }
}

fn battery_level_label(level: BatteryLevel) -> (label: &'static str)
    ensures
        label@ == battery_level_text(level),
{
    match level {
        BatteryLevel::Critical => "critical",
        BatteryLevel::Low => "low",
        BatteryLevel::Good => "good",
        BatteryLevel::Full => "full",
        BatteryLevel::Unknown => "unknown",
    }
}

/// Yes or no.
pub open spec fn yes_no_text(value: bool) -> Seq<char> {
    if value {
        "yes"@
    } else {
        "no"@
    }
}

fn yes_no(value: bool) -> (label: &'static str)
    ensures
        label@ == yes_no_text(value),
{
    if value {
        "yes"
    } else {
        "no"
    }
}

/// Granted or denied.
pub open spec fn granted_text(value: bool) -> Seq<char> {
    if value {
        "granted"@
    } else {
        "denied"@
    }
}

fn granted(value: bool) -> (label: &'static str)
    ensures
        label@ == granted_text(value),
{
    if value {
        "granted"
    } else {
        "denied"
    }
}

/// Present or absent.
pub open spec fn present_text(value: bool) -> Seq<char> {
    if value {
        "present"@
    } else {
        "absent"@
    }
}

fn present(value: bool) -> (label: &'static str)
    ensures
        label@ == present_text(value),
{
    if value {
        "present"
    } else {
        "absent"
    }
}

/// One of two words, or that it is not known.
pub open spec fn state_text(value: Option<bool>, yes: Seq<char>, no: Seq<char>) -> Seq<char> {
    match value {
        Some(true) => yes,
        Some(false) => no,
        None => "unknown"@,
    }
}

fn opt_state(value: Option<bool>, yes: &'static str, no: &'static str) -> (label: &'static str)
    ensures
        label@ == state_text(value, yes@, no@),
{
    match value {
        Some(true) => yes,
        Some(false) => no,
        None => "unknown",
    }
}

/// A number, or a dash where there is none.
pub open spec fn number_text(value: Option<int>) -> Seq<char> {
    match value {
        Some(n) => if n < 0 {
            "-"@ + decimal((-n) as nat)
        } else {
            decimal(n as nat)
        },
        None => "—"@,
    }
}

fn push_number(out: &mut String, value: Option<i128>)
    requires
        value matches Some(n) ==> -0x8000_0000 <= n <= 0xffff_ffff_ffff_ffff,
    ensures
        final(out)@ == old(out)@ + number_text(
            match value {
                Some(n) => Some(n as int),
                None => None,
            },
        ),
{
    match value {
        Some(n) => {
            if n < 0 {
                out.append("-");
                push_decimal(out, (-n) as u64);
                assert(out@ =~= old(out)@ + ("-"@ + decimal((-n) as nat)));
            } else {
                push_decimal(out, n as u64);
            }
        },
        None => {
            out.append("—");
        },
    }
}

/// The name of an operating system.
pub open spec fn os_text(os: Seq<char>) -> Seq<char> {
    if os == "macos"@ {
        "macOS"@
    } else if os == "linux"@ {
        "Linux"@
    } else if os == "windows"@ {
        "Windows"@
    } else {
        os
    }
}

fn os_label(os: &str) -> (label: &str)
    ensures
        label@ == os_text(os@),
{
    if same_text(os, "macos") {
        "macOS"
    } else if same_text(os, "linux") {
        "Linux"
    } else if same_text(os, "windows") {
        "Windows"
    } else {
        os
    }
}

/// Where a device sits.
pub open spec fn slot_text(slot: u8) -> Seq<char> {
    if slot == DIRECT_DEVICE_INDEX {
        "direct"@
    } else {
        "Slot "@ + decimal(slot as nat)
    }
}

fn slot_label(slot: u8) -> (label: String)
    ensures
        label@ == slot_text(slot),
{
    if slot == DIRECT_DEVICE_INDEX {
        "direct".to_owned()
    } else {
        let mut label = "Slot ".to_owned();
        push_decimal(&mut label, slot as u64);
        label
    }
}

/// A battery's state.
pub open spec fn battery_text(battery: Option<BatteryInfo>) -> Seq<char> {
    match battery {
        Some(b) => decimal(b.percentage as nat) + "% ("@ + battery_status_text(b.status) + ", "@
            + battery_level_text(b.level) + ")"@,
        None => "n/a"@,
    }
}

fn battery_label(battery: Option<BatteryInfo>) -> (label: String)
    ensures
        label@ == battery_text(battery),
{
    match battery {
        Some(b) => {
            let mut label = "".to_owned();
            push_decimal(&mut label, b.percentage as u64);
            proof {
                reveal_strlit("");
                assert(label@ =~= decimal(b.percentage as nat));
            }
            label.append("% (");
            label.append(battery_status_label(b.status));
            label.append(", ");
            label.append(battery_level_label(b.level));
            label.append(")");
            label
        },
        None => "n/a".to_owned(),
    }
}

/// The texts among `parts` that are there.
pub open spec fn given(parts: Seq<Option<Seq<char>>>) -> Seq<Seq<char>>
    decreases parts.len(),
{
    if parts.len() == 0 {
        Seq::empty()
    } else {
        match parts.last() {
            Some(part) => given(parts.drop_last()).push(part),
            None => given(parts.drop_last()),
        }
    }
}

/// A text where `there` holds.
pub open spec fn text_if(there: bool, text: Seq<char>) -> Option<Seq<char>> {
    if there {
        Some(text)
    } else {
        None
    }
}

proof fn lemma_given_push(parts: Seq<Option<Seq<char>>>, part: Option<Seq<char>>)
    ensures
        given(parts.push(part)) == match part {
            Some(text) => given(parts).push(text),
            None => given(parts),
        },
{
    assert(parts.push(part).drop_last() =~= parts);
}

/// What identifies a device's model beside its key.
pub open spec fn model_parts(d: DeviceDiag) -> Seq<Option<Seq<char>>> {
    seq![
        match d.wpid {
            Some(wpid) => Some("wpid: "@ + hexadecimal(wpid as nat, 4)),
            None => None,
        },
        match d.model_ids {
            Some(ids) => Some(
                "model-ids: "@ + hexadecimal(ids@[0] as nat, 4) + "/"@ + hexadecimal(
                    ids@[1] as nat,
                    4,
                ) + "/"@ + hexadecimal(ids@[2] as nat, 4),
            ),
            None => None,
        },
        match d.extended_model_id {
            Some(id) => Some("ext-model: "@ + hexadecimal(id as nat, 2)),
            None => None,
        },
    ]
}

/// What identifies a device's model beside its key, in brackets.
pub open spec fn model_text(d: DeviceDiag) -> Seq<char> {
    let parts = given(model_parts(d));
    if parts.len() == 0 {
        Seq::empty()
    } else {
        " ("@ + separated(parts, ", "@) + ")"@
    }
}

fn model_detail(d: &DeviceDiag) -> (text: String)
    ensures
        text@ == model_text(*d),
{
    let ghost p = model_parts(*d);
    let mut parts: Vec<String> = Vec::new();
    let ghost none = Seq::<Option<Seq<char>>>::empty();
    assert(each(parts@) =~= given(none));
    if let Some(wpid) = d.wpid {
        let mut part = "wpid: ".to_owned();
        push_hexadecimal(&mut part, wpid as u32, 4);
        parts.push(part);
    }
    proof {
        lemma_given_push(none, p[0]);
        assert(each(parts@) =~= given(none.push(p[0])));
    }
    let ghost before = parts@;
    if let Some(ids) = d.model_ids {
        let mut part = "model-ids: ".to_owned();
        push_hexadecimal(&mut part, ids[0] as u32, 4);
        part.append("/");
        push_hexadecimal(&mut part, ids[1] as u32, 4);
        part.append("/");
        push_hexadecimal(&mut part, ids[2] as u32, 4);
        parts.push(part);
        assert(each(parts@) =~= each(before).push(part@));
    }
    proof {
        lemma_given_push(none.push(p[0]), p[1]);
    }
    let ghost before = parts@;
    if let Some(id) = d.extended_model_id {
        let mut part = "ext-model: ".to_owned();
        push_hexadecimal(&mut part, id as u32, 2);
        parts.push(part);
        assert(each(parts@) =~= each(before).push(part@));
    }
    proof {
        lemma_given_push(none.push(p[0]).push(p[1]), p[2]);
        assert(none.push(p[0]).push(p[1]).push(p[2]) =~= p);
        assert(each(parts@) == given(p));
    }
    if parts.len() == 0 {
        assert(given(p).len() == 0);
        let text = "".to_owned();
        proof {
            reveal_strlit("");
        }
        text
    } else {
        assert(given(p).len() == parts@.len());
        let mut text = " (".to_owned();
        let list = joined_with(&parts, ", ");
        text.append(list.as_str());
        text.append(")");
        text
    }
}

/// The transports a device announced.
pub open spec fn transport_parts(t: DeviceTransports) -> Seq<Option<Seq<char>>> {
    seq![
        text_if(t.usb, "USB"@),
        text_if(t.equad, "eQuad"@),
        text_if(t.btle, "BTLE"@),
        text_if(t.bluetooth, "Bluetooth"@),
    ]
}

/// The transports a device announced, in words.
pub open spec fn transports_text(t: DeviceTransports) -> Seq<char> {
    let parts = given(transport_parts(t));
    if parts.len() == 0 {
        "none"@
    } else {
        separated(parts, ", "@)
    }
}

fn push_if(parts: &mut Vec<String>, there: bool, text: &'static str)
    ensures
        each(final(parts)@) == match text_if(there, text@) {
            Some(text) => each(old(parts)@).push(text),
            None => each(old(parts)@),
        },
{
    if there {
        parts.push(text.to_owned());
        assert(each(parts@) =~= each(old(parts)@).push(text@));
    }
}

fn transports_label(t: DeviceTransports) -> (label: String)
    ensures
        label@ == transports_text(t),
{
    let ghost p = transport_parts(t);
    let ghost none = Seq::<Option<Seq<char>>>::empty();
    let mut parts: Vec<String> = Vec::new();
    assert(each(parts@) =~= given(none));
    push_if(&mut parts, t.usb, "USB");
    push_if(&mut parts, t.equad, "eQuad");
    push_if(&mut parts, t.btle, "BTLE");
    push_if(&mut parts, t.bluetooth, "Bluetooth");
    proof {
        lemma_given_push(none, p[0]);
        lemma_given_push(none.push(p[0]), p[1]);
        lemma_given_push(none.push(p[0]).push(p[1]), p[2]);
        lemma_given_push(none.push(p[0]).push(p[1]).push(p[2]), p[3]);
        assert(none.push(p[0]).push(p[1]).push(p[2]).push(p[3]) =~= p);
        assert(each(parts@) == given(p));
        assert(given(p).len() == parts@.len());
    }
    if parts.len() == 0 {
        "none".to_owned()
    } else {
        joined_with(&parts, ", ")
    }
}

impl AppInfo {
    /// The version of the application.
    pub open spec fn app_version_line(self) -> Seq<char> {
        "- OpenLogi (GUI): v"@
            + self.gui_version@
            + " ("@
            + self.build_profile@
            + ")\n"@
    }

    fn push_app_version(&self, out: &mut String)
        ensures
            final(out)@ == old(out)@ + self.app_version_line(),
    {
        let mut line = "- OpenLogi (GUI): v".to_owned();
        line.append(self.gui_version.as_str());
        line.append(" (");
        line.append(self.build_profile.as_str());
        line.append(")\n");
        out.append(line.as_str());
    }
}

impl AppInfo {
    /// The version of the agent, and whether it is that of the application.
    pub open spec fn agent_text(self) -> Seq<char> {
        match self.agent_version {
            Some(version) => if version@ == self.gui_version@ {
                "v"@ + version@ + " (connected)"@
            } else {
                "v"@ + version@ + " (connected) ⚠️ version mismatch with GUI"@
            },
            None => "not connected"@,
        }
    }

    fn agent_label(&self) -> (label: String)
        ensures
            label@ == self.agent_text(),
    {
        match &self.agent_version {
            Some(version) => {
                let mut label = "v".to_owned();
                label.append(version.as_str());
                if same_text(version.as_str(), self.gui_version.as_str()) {
                    label.append(" (connected)");
                } else {
                    label.append(" (connected) ⚠️ version mismatch with GUI");
                }
                label
            },
            None => "not connected".to_owned(),
        }
    }

    /// The protocols spoken, and whether they are the same.
    pub open spec fn protocol_text(self) -> Seq<char> {
        match self.protocol_agent {
            Some(p) => if p == self.protocol_gui {
                "GUI "@ + decimal(self.protocol_gui as nat) + " / agent "@ + decimal(p as nat)
            } else {
                "GUI "@ + decimal(self.protocol_gui as nat) + " / agent "@ + decimal(p as nat)
                    + " ⚠️ mismatch"@
            },
            None => "GUI "@ + decimal(self.protocol_gui as nat) + " / agent —"@,
        }
    }

    fn protocol_label(&self) -> (label: String)
        ensures
            label@ == self.protocol_text(),
    {
        let mut label = "GUI ".to_owned();
        push_decimal(&mut label, self.protocol_gui as u64);
        match self.protocol_agent {
            Some(p) => {
                label.append(" / agent ");
                push_decimal(&mut label, p as u64);
                if p != self.protocol_gui {
                    label.append(" ⚠️ mismatch");
                }
            },
            None => {
                label.append(" / agent —");
            },
        }
        label
    }

    /// How far the search for devices got.
    pub open spec fn inventory_text(self) -> Seq<char> {
        match self.inventory {
            Some(InventoryState::Ready) => "ready"@,
            Some(InventoryState::Scanning) => "scanning (first enumeration in progress)"@,
            Some(
                InventoryState::Unavailable,
            ) => "⚠️ unavailable (enumeration failed — see agent log)"@,
            None => "—"@,
        }
    }

    fn inventory_label(&self) -> (label: &'static str)
        ensures
            label@ == self.inventory_text(),
    {
        match self.inventory {
            Some(InventoryState::Ready) => "ready",
            Some(InventoryState::Scanning) => "scanning (first enumeration in progress)",
            Some(
                InventoryState::Unavailable,
            ) => "⚠️ unavailable (enumeration failed — see agent log)",
            None => "—",
        }
    }

    /// The host.
    pub open spec fn os_full_text(self) -> Seq<char> {
        match self.os_version {
            Some(version) => os_text(self.os@) + " "@ + version@ + " ("@ + self.arch@ + ")"@,
            None => os_text(self.os@) + " ("@ + self.arch@ + ")"@,
        }
    }

    fn os_full_label(&self) -> (label: String)
        ensures
            label@ == self.os_full_text(),
    {
        let mut label = os_label(self.os.as_str()).to_owned();
        if let Some(version) = &self.os_version {
            label.append(" ");
            label.append(version.as_str());
        }
        label.append(" (");
        label.append(self.arch.as_str());
        label.append(")");
        label
    }
}

impl AppInfo {
    /// The agent.
    pub open spec fn agent_line(self) -> Seq<char> {
        "- Agent: "@
            + self.agent_text()
            + "\n"@
    }

    fn push_agent(&self, out: &mut String)
        ensures
            final(out)@ == old(out)@ + self.agent_line(),
    {
        let mut line = "- Agent: ".to_owned();
        line.append(self.agent_label().as_str());
        line.append("\n");
        out.append(line.as_str());
    }
}

impl AppInfo {
    /// The protocols spoken.
    pub open spec fn protocol_line(self) -> Seq<char> {
        "- IPC protocol: "@
            + self.protocol_text()
            + "\n"@
    }

    fn push_protocol(&self, out: &mut String)
        ensures
            final(out)@ == old(out)@ + self.protocol_line(),
    {
        let mut line = "- IPC protocol: ".to_owned();
        line.append(self.protocol_label().as_str());
        line.append("\n");
        out.append(line.as_str());
    }
}

impl AppInfo {
    /// How far the search for devices got.
    pub open spec fn inventory_line(self) -> Seq<char> {
        "- Inventory: "@
            + self.inventory_text()
            + "\n"@
    }

    fn push_inventory(&self, out: &mut String)
        ensures
            final(out)@ == old(out)@ + self.inventory_line(),
    {
        let mut line = "- Inventory: ".to_owned();
        line.append(self.inventory_label());
        line.append("\n");
        out.append(line.as_str());
    }
}

impl AppInfo {
    /// The host.
    pub open spec fn os_line(self) -> Seq<char> {
        "- OS: "@
            + self.os_full_text()
            + "\n"@
    }

    fn push_os(&self, out: &mut String)
        ensures
            final(out)@ == old(out)@ + self.os_line(),
    {
        let mut line = "- OS: ".to_owned();
        line.append(self.os_full_label().as_str());
        line.append("\n");
        out.append(line.as_str());
    }
}

/// A text, or another where it is not there.
pub open spec fn text_or(text: Option<String>, otherwise: Seq<char>) -> Seq<char> {
    match text {
        Some(text) => text@,
        None => otherwise,
    }
}

fn opt_text<'a>(text: &'a Option<String>, otherwise: &'static str) -> (shown: &'a str)
    ensures
        shown@ == text_or(*text, otherwise@),
{
    match text {
        Some(text) => text.as_str(),
        None => otherwise,
    }
}

impl AppInfo {
    /// The language.
    pub open spec fn locale_line(self) -> Seq<char> {
        "- Locale: "@
            + text_or(self.system_locale, "unknown"@)
            + " (UI: "@
            + text_or(self.ui_language, "follow system"@)
            + ")\n"@
    }

    fn push_locale(&self, out: &mut String)
        ensures
            final(out)@ == old(out)@ + self.locale_line(),
    {
        let mut line = "- Locale: ".to_owned();
        line.append(opt_text(&self.system_locale, "unknown"));
        line.append(" (UI: ");
        line.append(opt_text(&self.ui_language, "follow system"));
        line.append(")\n");
        out.append(line.as_str());
    }
}

impl AppInfo {
    /// What the system allows.
    pub open spec fn access_line(self) -> Seq<char> {
        "- Accessibility: "@
            + granted_text(self.accessibility_granted)
            + " · Input hook: "@
            + state_text(self.hook_installed, "installed"@, "not installed"@)
            + "\n"@
    }

    fn push_access(&self, out: &mut String)
        ensures
            final(out)@ == old(out)@ + self.access_line(),
    {
        let mut line = "- Accessibility: ".to_owned();
        line.append(granted(self.accessibility_granted));
        line.append(" · Input hook: ");
        line.append(opt_state(self.hook_installed, "installed", "not installed"));
        line.append("\n");
        out.append(line.as_str());
    }
}

impl AppInfo {
    /// What is switched on.
    pub open spec fn switches_line(self) -> Seq<char> {
        "- Launch at login: "@
            + state_text(self.launch_at_login, "yes"@, "no"@)
            + " · Menu bar: "@
            + state_text(self.show_in_menu_bar, "yes"@, "no"@)
            + " · Update check: "@
            + state_text(self.check_for_updates, "on"@, "off"@)
            + "\n"@
    }

    fn push_switches(&self, out: &mut String)
        ensures
            final(out)@ == old(out)@ + self.switches_line(),
    {
        let mut line = "- Launch at login: ".to_owned();
        line.append(opt_state(self.launch_at_login, "yes", "no"));
        line.append(" · Menu bar: ");
        line.append(opt_state(self.show_in_menu_bar, "yes", "no"));
        line.append(" · Update check: ");
        line.append(opt_state(self.check_for_updates, "on", "off"));
        line.append("\n");
        out.append(line.as_str());
    }
}

/// Where the application runs from.
pub open spec fn bundle_text(bundle: bool) -> Seq<char> {
    if bundle {
        "app bundle (release)"@
    } else {
        "source build (dev)"@
    }
}

fn bundle_label(bundle: bool) -> (label: &'static str)
    ensures
        label@ == bundle_text(bundle),
{
    if bundle {
        "app bundle (release)"
    } else {
        "source build (dev)"
    }
}

impl AppInfo {
    /// Where the application runs from.
    pub open spec fn source_line(self) -> Seq<char> {
        "- Running from: "@
            + bundle_text(self.running_from_bundle)
            + "\n"@
    }

    fn push_source(&self, out: &mut String)
        ensures
            final(out)@ == old(out)@ + self.source_line(),
    {
        let mut line = "- Running from: ".to_owned();
        line.append(bundle_label(self.running_from_bundle));
        line.append("\n");
        out.append(line.as_str());
    }
}

impl AppInfo {
    /// The configuration.
    pub open spec fn config_line(self) -> Seq<char> {
        "- Config: schema "@
            + number_text(match self.config_schema_version { Some(n) => Some(n as int), None => None })
            + " · "@
            + number_text(match self.configured_device_count { Some(n) => Some(n as int), None => None })
            + " configured device(s) · thumbwheel "@
            + number_text(match self.thumbwheel_sensitivity { Some(n) => Some(n as int), None => None })
            + "\n\n"@
    }

    fn push_config(&self, out: &mut String)
        ensures
            final(out)@ == old(out)@ + self.config_line(),
    {
        let mut line = "- Config: schema ".to_owned();
        push_number(&mut line, match self.config_schema_version { Some(n) => Some(n as i128), None => None });
        line.append(" · ");
        push_number(&mut line, match self.configured_device_count { Some(n) => Some(n as i128), None => None });
        line.append(" configured device(s) · thumbwheel ");
        push_number(&mut line, match self.thumbwheel_sensitivity { Some(n) => Some(n as i128), None => None });
        line.append("\n\n");
        out.append(line.as_str());
    }
}

impl AppInfo {
    /// The part of the report on the application.
    pub open spec fn section(self) -> Seq<char> {
        "**App**\n"@ + self.app_version_line() + self.agent_line() + self.protocol_line()
            + self.inventory_line() + self.os_line() + self.locale_line() + self.access_line()
            + self.switches_line() + self.source_line() + self.config_line()
    }
}

impl AssetInfo {
    /// The state of the registry.
    pub open spec fn index_text(self) -> Seq<char> {
        match (self.index_loaded, self.index_entries) {
            (true, Some(n)) => "loaded ("@ + decimal(n as nat) + " models)"@,
            (true, None) => "loaded"@,
            (false, _) => "not loaded"@,
        }
    }

    fn index_label(&self) -> (label: String)
        ensures
            label@ == self.index_text(),
    {
        match (self.index_loaded, self.index_entries) {
            (true, Some(n)) => {
                let mut label = "loaded (".to_owned();
                push_decimal(&mut label, n as u64);
                label.append(" models)");
                label
            },
            (true, None) => "loaded".to_owned(),
            (false, _) => "not loaded".to_owned(),
        }
    }

    /// The part of the report on device pictures.
    pub open spec fn section(self) -> Seq<char> {
        "**Assets**\n"@ + self.tier_line() + self.cache_line()
    }
}

impl AssetInfo {
    /// Where device pictures come from.
    pub open spec fn tier_line(self) -> Seq<char> {
        "- Source: "@
            + asset_source_text(self.source)
            + " · Index: "@
            + self.index_text()
            + " · User cache: "@
            + present_text(self.user_cache_present)
            + "\n"@
    }

    fn push_tier(&self, out: &mut String)
        ensures
            final(out)@ == old(out)@ + self.tier_line(),
    {
        let mut line = "- Source: ".to_owned();
        line.append(asset_source_label(self.source));
        line.append(" · Index: ");
        line.append(self.index_label().as_str());
        line.append(" · User cache: ");
        line.append(present(self.user_cache_present));
        line.append("\n");
        out.append(line.as_str());
    }
}

impl AssetInfo {
    /// Where device pictures are kept.
    pub open spec fn cache_line(self) -> Seq<char> {
        "- Cache path: "@
            + self.cache_path@
            + " · Bundle assets: "@
            + present_text(self.bundle_present)
            + "\n\n"@
    }

    fn push_cache(&self, out: &mut String)
        ensures
            final(out)@ == old(out)@ + self.cache_line(),
    {
        let mut line = "- Cache path: ".to_owned();
        line.append(self.cache_path.as_str());
        line.append(" · Bundle assets: ");
        line.append(present(self.bundle_present));
        line.append("\n\n");
        out.append(line.as_str());
    }
}

impl DeviceDiag {
    /// The firmware's own name, in brackets.
    pub open spec fn codename_text(self) -> Seq<char> {
        match self.codename {
            Some(name) => " (codename: "@ + name@ + ")"@,
            None => Seq::empty(),
        }
    }

    fn codename_label(&self) -> (label: String)
        ensures
            label@ == self.codename_text(),
    {
        match &self.codename {
            Some(name) => {
                let mut label = " (codename: ".to_owned();
                label.append(name.as_str());
                label.append(")");
                label
            },
            None => {
                proof {
                    reveal_strlit("");
                }
                "".to_owned()
            },
        }
    }

    /// What the device can do.
    pub open spec fn capabilities_text(self) -> Seq<char> {
        match self.capabilities {
            Some(c) => "buttons="@ + yes_no_text(c.buttons) + ", pointer="@ + yes_no_text(c.pointer)
                + ", lighting="@ + yes_no_text(c.lighting),
            None => "not probed"@,
        }
    }

    fn capabilities_label(&self) -> (label: String)
        ensures
            label@ == self.capabilities_text(),
    {
        match self.capabilities {
            Some(c) => {
                let mut label = "buttons=".to_owned();
                label.append(yes_no(c.buttons));
                label.append(", pointer=");
                label.append(yes_no(c.pointer));
                label.append(", lighting=");
                label.append(yes_no(c.lighting));
                label
            },
            None => "not probed".to_owned(),
        }
    }

    /// The picture.
    pub open spec fn render_text(self) -> Seq<char> {
        match self.render {
            RenderState::Resolved(depot) => depot@,
            RenderState::Silhouette => "⚠️ none (silhouette)"@,
        }
    }

    fn render_label(&self) -> (label: &str)
        ensures
            label@ == self.render_text(),
    {
        match &self.render {
            RenderState::Resolved(depot) => depot.as_str(),
            RenderState::Silhouette => "⚠️ none (silhouette)",
        }
    }
}

impl DeviceDiag {
    /// The name and kind of the device.
    pub open spec fn name_line(self) -> Seq<char> {
        "- "@
            + self.display_name@
            + " — "@
            + kind_text(self.kind)
            + self.codename_text()
            + "\n"@
    }

    fn push_name(&self, out: &mut String)
        ensures
            final(out)@ == old(out)@ + self.name_line(),
    {
        let mut line = "- ".to_owned();
        line.append(self.display_name.as_str());
        line.append(" — ");
        line.append(kind_label(self.kind));
        line.append(self.codename_label().as_str());
        line.append("\n");
        out.append(line.as_str());
    }
}

impl DeviceDiag {
    /// How the device is connected.
    pub open spec fn connection_line(self) -> Seq<char> {
        "  - Connection: "@
            + connection_text(self.connection)
            + " · Online: "@
            + yes_no_text(self.online)
            + " · Battery: "@
            + battery_text(self.battery)
            + "\n"@
    }

    fn push_connection(&self, out: &mut String)
        ensures
            final(out)@ == old(out)@ + self.connection_line(),
    {
        let mut line = "  - Connection: ".to_owned();
        line.append(connection_label(self.connection));
        line.append(" · Online: ");
        line.append(yes_no(self.online));
        line.append(" · Battery: ");
        line.append(battery_label(self.battery).as_str());
        line.append("\n");
        out.append(line.as_str());
    }
}

impl DeviceDiag {
    /// What the device can do.
    pub open spec fn capabilities_line(self) -> Seq<char> {
        "  - Capabilities: "@
            + self.capabilities_text()
            + "\n"@
    }

    fn push_capabilities(&self, out: &mut String)
        ensures
            final(out)@ == old(out)@ + self.capabilities_line(),
    {
        let mut line = "  - Capabilities: ".to_owned();
        line.append(self.capabilities_label().as_str());
        line.append("\n");
        out.append(line.as_str());
    }
}

impl DeviceDiag {
    /// The model of the device.
    pub open spec fn model_line(self) -> Seq<char> {
        "  - Model: "@
            + self.config_key@
            + model_text(self)
            + "\n"@
    }

    fn push_model(&self, out: &mut String)
        ensures
            final(out)@ == old(out)@ + self.model_line(),
    {
        let mut line = "  - Model: ".to_owned();
        line.append(self.config_key.as_str());
        line.append(model_detail(self).as_str());
        line.append("\n");
        out.append(line.as_str());
    }
}

impl DeviceDiag {
    /// The picture and the slot of the device.
    pub open spec fn render_line(self) -> Seq<char> {
        "  - Render: "@
            + self.render_text()
            + " · "@
            + slot_text(self.slot)
            + "\n"@
    }

    fn push_render(&self, out: &mut String)
        ensures
            final(out)@ == old(out)@ + self.render_line(),
    {
        let mut line = "  - Render: ".to_owned();
        line.append(self.render_label());
        line.append(" · ");
        line.append(slot_label(self.slot).as_str());
        line.append("\n");
        out.append(line.as_str());
    }
}

impl DeviceDiag {
    /// The resolution, where it was asked for.
    pub open spec fn dpi_line(self) -> Seq<char> {
        match self.dpi {
            Some(dpi) => "  - DPI: "@ + dpi@ + "\n"@,
            None => Seq::empty(),
        }
    }

    fn push_dpi(&self, out: &mut String)
        ensures
            final(out)@ == old(out)@ + self.dpi_line(),
    {
        if let Some(dpi) = &self.dpi {
            let mut line = "  - DPI: ".to_owned();
            line.append(dpi.as_str());
            line.append("\n");
            out.append(line.as_str());
        } else {
            assert(out@ =~= out@ + Seq::<char>::empty());
        }
    }

    /// The transports, where they were announced.
    pub open spec fn transports_line(self) -> Seq<char> {
        match self.transports {
            Some(t) => "  - Transports: "@ + transports_text(t) + "\n"@,
            None => Seq::empty(),
        }
    }

    fn push_transports(&self, out: &mut String)
        ensures
            final(out)@ == old(out)@ + self.transports_line(),
    {
        if let Some(t) = self.transports {
            let mut line = "  - Transports: ".to_owned();
            line.append(transports_label(t).as_str());
            line.append("\n");
            out.append(line.as_str());
        } else {
            assert(out@ =~= out@ + Seq::<char>::empty());
        }
    }

    /// The part of the report on one device.
    pub open spec fn section(self) -> Seq<char> {
        self.name_line() + self.connection_line() + self.capabilities_line() + self.dpi_line()
            + self.model_line() + self.transports_line() + self.render_line()
    }

    fn rendered(&self) -> (text: String)
        ensures
            text@ == self.section(),
    {
        let mut text = "".to_owned();
        self.push_name(&mut text);
        proof {
            reveal_strlit("");
            assert(text@ =~= self.name_line());
        }
        self.push_connection(&mut text);
        self.push_capabilities(&mut text);
        self.push_dpi(&mut text);
        self.push_model(&mut text);
        self.push_transports(&mut text);
        self.push_render(&mut text);
        text
    }
}

impl ReceiverDiag {
    /// The receiver.
    pub open spec fn entry_line(self) -> Seq<char> {
        "- "@
            + self.name@
            + " (VID "@
            + hexadecimal(self.vendor_id as nat, 4)
            + " / PID "@
            + hexadecimal(self.product_id as nat, 4)
            + ")\n"@
    }

    fn push_entry(&self, out: &mut String)
        ensures
            final(out)@ == old(out)@ + self.entry_line(),
    {
        let mut line = "- ".to_owned();
        line.append(self.name.as_str());
        line.append(" (VID ");
        push_hexadecimal(&mut line, self.vendor_id as u32, 4);
        line.append(" / PID ");
        push_hexadecimal(&mut line, self.product_id as u32, 4);
        line.append(")\n");
        out.append(line.as_str());
    }
}

/// The devices, one after the other.
pub open spec fn device_sections(devices: Seq<DeviceDiag>) -> Seq<char>
    decreases devices.len(),
{
    if devices.len() == 0 {
        Seq::empty()
    } else {
        device_sections(devices.drop_last()) + devices.last().section()
    }
}

/// The receivers, one after the other.
pub open spec fn receiver_lines(receivers: Seq<ReceiverDiag>) -> Seq<char>
    decreases receivers.len(),
{
    if receivers.len() == 0 {
        Seq::empty()
    } else {
        receiver_lines(receivers.drop_last()) + receivers.last().entry_line()
    }
}

impl DiagnosticsReport {
    /// What stands in place of the devices where there is none.
    pub open spec fn empty_line(self) -> Seq<char> {
        if self.devices@.len() == 0 {
            "- No devices detected.\n"@
        } else {
            Seq::empty()
        }
    }

    /// The part of the report on receivers, where there are any.
    pub open spec fn receivers_section(self) -> Seq<char> {
        if self.receivers@.len() == 0 {
            Seq::empty()
        } else {
            "\n**Receivers ("@ + decimal(self.receivers@.len()) + ")**\n"@ + receiver_lines(
                self.receivers@,
            )
        }
    }

    /// The part of the report on devices and receivers.
    pub open spec fn devices_section(self) -> Seq<char> {
        "**Devices ("@ + decimal(self.devices@.len()) + ")**\n"@ + self.empty_line()
            + device_sections(self.devices@) + self.receivers_section()
    }

    /// The report, without the line break at its end.
    pub open spec fn markdown(self) -> Seq<char> {
        ("### OpenLogi Diagnostics\n\n"@ + self.app.section() + self.assets.section()
            + self.devices_section()).drop_last()
    }

    /// The report as Markdown.
    pub fn to_markdown(&self) -> (text: String)
        ensures
            text@ == self.markdown(),
    {
        let mut out = "### OpenLogi Diagnostics\n\n".to_owned();
        self.write_app(&mut out);
        self.write_assets(&mut out);
        self.write_devices(&mut out);
        proof {
            reveal_strlit("**Devices (");
        }
        let n: usize = out.as_str().unicode_len();
        let text = out.as_str().substring_char(0, n - 1).to_owned();
        assert(text@ =~= self.markdown());
        text
    }

    fn write_app(&self, out: &mut String)
        ensures
            final(out)@ == old(out)@ + self.app.section(),
    {
        let mut section = "**App**\n".to_owned();
        self.app.push_app_version(&mut section);
        self.app.push_agent(&mut section);
        self.app.push_protocol(&mut section);
        self.app.push_inventory(&mut section);
        self.app.push_os(&mut section);
        self.app.push_locale(&mut section);
        self.app.push_access(&mut section);
        self.app.push_switches(&mut section);
        self.app.push_source(&mut section);
        self.app.push_config(&mut section);
        out.append(section.as_str());
    }

    fn write_assets(&self, out: &mut String)
        ensures
            final(out)@ == old(out)@ + self.assets.section(),
    {
        let mut section = "**Assets**\n".to_owned();
        self.assets.push_tier(&mut section);
        self.assets.push_cache(&mut section);
        out.append(section.as_str());
    }

    fn device_list(&self) -> (text: String)
        ensures
            text@ == device_sections(self.devices@),
    {
        let ghost devices = self.devices@;
        let mut text = "".to_owned();
        let mut i: usize = 0;
        proof {
            reveal_strlit("");
            assert(text@ =~= device_sections(devices.take(0)));
        }
        while i < self.devices.len()
            invariant
                devices == self.devices@,
                i <= devices.len(),
                text@ == device_sections(devices.take(i as int)),
            decreases devices.len() - i,
        {
            text.append(self.devices[i].rendered().as_str());
            proof {
                assert(devices.take(i + 1).drop_last() =~= devices.take(i as int));
                assert(devices.take(i + 1).last() == devices[i as int]);
            }
            i += 1;
        }
        assert(devices.take(i as int) =~= devices);
        text
    }

    fn receiver_list(&self) -> (text: String)
        ensures
            text@ == receiver_lines(self.receivers@),
    {
        let ghost receivers = self.receivers@;
        let mut text = "".to_owned();
        let mut i: usize = 0;
        proof {
            reveal_strlit("");
            assert(text@ =~= receiver_lines(receivers.take(0)));
        }
        while i < self.receivers.len()
            invariant
                receivers == self.receivers@,
                i <= receivers.len(),
                text@ == receiver_lines(receivers.take(i as int)),
            decreases receivers.len() - i,
        {
            self.receivers[i].push_entry(&mut text);
            proof {
                assert(receivers.take(i + 1).drop_last() =~= receivers.take(i as int));
                assert(receivers.take(i + 1).last() == receivers[i as int]);
            }
            i += 1;
        }
        assert(receivers.take(i as int) =~= receivers);
        text
    }

    fn write_devices(&self, out: &mut String)
        ensures
            final(out)@ == old(out)@ + self.devices_section(),
    {
        let mut section = "**Devices (".to_owned();
        push_decimal(&mut section, self.devices.len() as u64);
        section.append(")**\n");
        let ghost heading = section@;
        if self.devices.len() == 0 {
            section.append("- No devices detected.\n");
        }
        assert(section@ =~= heading + self.empty_line());
        section.append(self.device_list().as_str());
        let ghost devices = section@;
        if self.receivers.len() > 0 {
            let mut receivers = "\n**Receivers (".to_owned();
            push_decimal(&mut receivers, self.receivers.len() as u64);
            receivers.append(")**\n");
            receivers.append(self.receiver_list().as_str());
            section.append(receivers.as_str());
        }
        assert(section@ =~= devices + self.receivers_section());
        out.append(section.as_str());
    }
}

/// Whether a text ends in a visible character and one line break.
pub open spec fn ends_in_one_break(text: Seq<char>) -> bool {
    text.len() >= 2 && text.last() == '\n' && '!' <= text[text.len() - 2] <= '~'
}

proof fn lemma_decimal_ends_in_a_digit(value: nat)
    ensures
        decimal(value).len() > 0,
        '0' <= decimal(value).last() <= '9',
{
}

proof fn lemma_device_ends_in_one_break(d: DeviceDiag)
    ensures
        ends_in_one_break(d.section()),
{
    reveal_strlit("\n");
    reveal_strlit("direct");
    reveal_strlit("  - Render: ");
    lemma_decimal_ends_in_a_digit(d.slot as nat);
    let slot = slot_text(d.slot);
    assert(slot.len() > 0 && '!' <= slot.last() <= '~');
    let before = "  - Render: "@ + d.render_text() + " · "@;
    assert(d.render_line() == before + slot + "\n"@);
    assert(d.render_line()[d.render_line().len() - 2] == slot.last());
}

proof fn lemma_ends_after(before: Seq<char>, last: Seq<char>)
    requires
        ends_in_one_break(last),
    ensures
        ends_in_one_break(before + last),
{
}

proof fn lemma_nothing_after(text: Seq<char>)
    ensures
        text + Seq::<char>::empty() == text,
{
    assert(text + Seq::<char>::empty() =~= text);
}

/// The report has exactly one line break at its end to leave off: what is left
/// ends in a visible character.
pub proof fn law_one_line_break_is_left_off(report: DiagnosticsReport)
    ensures
        ends_in_one_break(report.devices_section()),
        '!' <= report.markdown().last() <= '~',
{
    let head = "**Devices ("@ + decimal(report.devices@.len()) + ")**\n"@;
    let empty = report.empty_line();
    let devices = device_sections(report.devices@);
    let receivers = report.receivers_section();
    let section = report.devices_section();
    assert(section == head + empty + devices + receivers);
    if report.receivers@.len() > 0 {
        lemma_receiver_ends_in_one_break(report.receivers@.last());
        lemma_ends_after(
            receiver_lines(report.receivers@.drop_last()),
            report.receivers@.last().entry_line(),
        );
        lemma_ends_after(
            "\n**Receivers ("@ + decimal(report.receivers@.len()) + ")**\n"@,
            receiver_lines(report.receivers@),
        );
        lemma_ends_after(head + empty + devices, receivers);
    } else {
        lemma_nothing_after(head + empty + devices);
        if report.devices@.len() > 0 {
            lemma_device_ends_in_one_break(report.devices@.last());
            lemma_ends_after(
                device_sections(report.devices@.drop_last()),
                report.devices@.last().section(),
            );
            lemma_ends_after(head + empty, devices);
        } else {
            lemma_nothing_after(head + empty);
            reveal_strlit("- No devices detected.\n");
            lemma_ends_after(head, empty);
        }
    }
    let before = "### OpenLogi Diagnostics\n\n"@ + report.app.section() + report.assets.section();
    lemma_last_but_one(before, section);
}

proof fn lemma_last_but_one(before: Seq<char>, last: Seq<char>)
    requires
        ends_in_one_break(last),
    ensures
        '!' <= (before + last).drop_last().last() <= '~',
{
}

proof fn lemma_receiver_ends_in_one_break(receiver: ReceiverDiag)
    ensures
        ends_in_one_break(receiver.entry_line()),
{
    reveal_strlit(")\n");
    let before = "- "@ + receiver.name@ + " (VID "@ + hexadecimal(receiver.vendor_id as nat, 4)
        + " / PID "@ + hexadecimal(receiver.product_id as nat, 4);
    lemma_ends_after(before, ")\n"@);
}

/// Whether `part` stands somewhere in `text`.
#[verifier::opaque]
pub open spec fn shows(text: Seq<char>, part: Seq<char>) -> bool {
    exists|n: int| #[trigger] shown_from(text, part, n)
}

/// Whether `part` stands in `text` from position `n` on.
pub open spec fn shown_from(text: Seq<char>, part: Seq<char>, n: int) -> bool {
    0 <= n && n + part.len() <= text.len() && text.subrange(n, n + part.len()) == part
}

proof fn lemma_shown_itself(part: Seq<char>)
    ensures
        shows(part, part),
{
    reveal(shows);
    assert(part.subrange(0, part.len() as int) =~= part);
    assert(shown_from(part, part, 0));
}

proof fn lemma_shown_last(before: Seq<char>, part: Seq<char>)
    ensures
        shows(before + part, part),
{
    reveal(shows);
    let n: int = before.len() as int;
    assert((before + part).subrange(n, n + part.len()) =~= part);
    assert(shown_from(before + part, part, n));
}

proof fn lemma_shown_last_two(before: Seq<char>, one: Seq<char>, two: Seq<char>)
    ensures
        shows(before + one + two, one + two),
{
    assert(before + one + two =~= before + (one + two));
    lemma_shown_last(before, one + two);
}

proof fn lemma_shown_last_three(before: Seq<char>, one: Seq<char>, two: Seq<char>, three: Seq<char>)
    ensures
        shows(before + one + two + three, one + two + three),
{
    assert(before + one + two + three =~= before + (one + two + three));
    lemma_shown_last(before, one + two + three);
}

proof fn lemma_shown_before(text: Seq<char>, after: Seq<char>, part: Seq<char>)
    requires
        shows(text, part),
    ensures
        shows(text + after, part),
{
    reveal(shows);
    let n = choose|n: int| #[trigger] shown_from(text, part, n);
    assert((text + after).subrange(n, n + part.len()) =~= text.subrange(n, n + part.len()));
    assert(shown_from(text + after, part, n));
}

proof fn lemma_shown_within(text: Seq<char>, line: Seq<char>, part: Seq<char>)
    requires
        shows(text, line),
        shows(line, part),
    ensures
        shows(text, part),
{
    reveal(shows);
    let n = choose|n: int| #[trigger] shown_from(text, line, n);
    let m = choose|m: int| #[trigger] shown_from(line, part, m);
    assert(text.subrange(n + m, n + m + part.len()) =~= text.subrange(
        n,
        n + line.len(),
    ).subrange(m, m + part.len()));
    assert(shown_from(text, part, n + m));
}

proof fn lemma_name_line_of_a_device(d: DeviceDiag)
    ensures
        shows(d.name_line(), "- "@ + d.display_name@ + " — "@ + kind_text(d.kind)),
        d.codename is Some ==> shows(d.name_line(), " (codename: "@ + d.codename.unwrap()@ + ")"@),
{
    let text_0 = "- "@;
    let text_1 = text_0 + d.display_name@;
    let text_2 = text_1 + " — "@;
    let text_3 = text_2 + kind_text(d.kind);
    let text_4 = text_3 + d.codename_text();
    let text_5 = text_4 + "\n"@;
    lemma_shown_itself(text_3);
    lemma_shown_before(text_3, d.codename_text(), text_3);
    lemma_shown_before(text_4, "\n"@, text_3);
    if d.codename is Some {
        let text_0 = " (codename: "@;
        let text_1 = text_0 + d.codename.unwrap()@;
        let text_2 = text_1 + ")"@;
        let line_0 = "- "@;
        let line_1 = line_0 + d.display_name@;
        let line_2 = line_1 + " — "@;
        let line_3 = line_2 + kind_text(d.kind);
        let line_4 = line_3 + d.codename_text();
        let line_5 = line_4 + "\n"@;
        lemma_shown_last(line_3, d.codename_text());
        lemma_shown_before(line_4, "\n"@, d.codename_text());
        lemma_shown_itself(text_2);
        lemma_shown_within(
            d.name_line(),
            d.codename_text(),
            " (codename: "@ + d.codename.unwrap()@ + ")"@,
        );
    }
}

proof fn lemma_connection_line_of_a_device(d: DeviceDiag)
    ensures
        shows(d.connection_line(), "  - Connection: "@ + connection_text(d.connection)),
        shows(d.connection_line(), " · Online: "@ + yes_no_text(d.online)),
        shows(d.connection_line(), " · Battery: "@ + battery_text(d.battery)),
{
    let text_0 = "  - Connection: "@;
    let text_1 = text_0 + connection_text(d.connection);
    let text_2 = text_1 + " · Online: "@;
    let text_3 = text_2 + yes_no_text(d.online);
    let text_4 = text_3 + " · Battery: "@;
    let text_5 = text_4 + battery_text(d.battery);
    let text_6 = text_5 + "\n"@;
    lemma_shown_itself(text_1);
    lemma_shown_before(text_1, " · Online: "@, text_1);
    lemma_shown_before(text_2, yes_no_text(d.online), text_1);
    lemma_shown_before(text_3, " · Battery: "@, text_1);
    lemma_shown_before(text_4, battery_text(d.battery), text_1);
    lemma_shown_before(text_5, "\n"@, text_1);
    lemma_shown_last_two(text_1, " · Online: "@, yes_no_text(d.online));
    lemma_shown_before(text_3, " · Battery: "@, " · Online: "@ + yes_no_text(d.online));
    lemma_shown_before(text_4, battery_text(d.battery), " · Online: "@ + yes_no_text(d.online));
    lemma_shown_before(text_5, "\n"@, " · Online: "@ + yes_no_text(d.online));
    lemma_shown_last_two(text_3, " · Battery: "@, battery_text(d.battery));
    lemma_shown_before(text_5, "\n"@, " · Battery: "@ + battery_text(d.battery));
}

proof fn lemma_capabilities_line_of_a_device(d: DeviceDiag)
    ensures
        d.capabilities is Some ==> shows(
            d.capabilities_line(),
            "buttons="@ + yes_no_text(d.capabilities.unwrap().buttons),
        ),
        d.capabilities is Some ==> shows(
            d.capabilities_line(),
            ", pointer="@ + yes_no_text(d.capabilities.unwrap().pointer),
        ),
        d.capabilities is Some ==> shows(
            d.capabilities_line(),
            ", lighting="@ + yes_no_text(d.capabilities.unwrap().lighting),
        ),
        d.capabilities is None ==> shows(
            d.capabilities_line(),
            "  - Capabilities: "@ + "not probed"@,
        ),
{
    if d.capabilities is Some {
        let text_0 = "buttons="@;
        let text_1 = text_0 + yes_no_text(d.capabilities.unwrap().buttons);
        let text_2 = text_1 + ", pointer="@;
        let text_3 = text_2 + yes_no_text(d.capabilities.unwrap().pointer);
        let text_4 = text_3 + ", lighting="@;
        let text_5 = text_4 + yes_no_text(d.capabilities.unwrap().lighting);
        let line_0 = "  - Capabilities: "@;
        let line_1 = line_0 + d.capabilities_text();
        let line_2 = line_1 + "\n"@;
        lemma_shown_last(line_0, d.capabilities_text());
        lemma_shown_before(line_1, "\n"@, d.capabilities_text());
        lemma_shown_itself(text_1);
        lemma_shown_before(text_1, ", pointer="@, text_1);
        lemma_shown_before(text_2, yes_no_text(d.capabilities.unwrap().pointer), text_1);
        lemma_shown_before(text_3, ", lighting="@, text_1);
        lemma_shown_before(text_4, yes_no_text(d.capabilities.unwrap().lighting), text_1);
        lemma_shown_within(
            d.capabilities_line(),
            d.capabilities_text(),
            "buttons="@ + yes_no_text(d.capabilities.unwrap().buttons),
        );
        lemma_shown_last_two(text_1, ", pointer="@, yes_no_text(d.capabilities.unwrap().pointer));
        lemma_shown_before(
            text_3,
            ", lighting="@,
            ", pointer="@ + yes_no_text(d.capabilities.unwrap().pointer),
        );
        lemma_shown_before(
            text_4,
            yes_no_text(d.capabilities.unwrap().lighting),
            ", pointer="@ + yes_no_text(d.capabilities.unwrap().pointer),
        );
        lemma_shown_within(
            d.capabilities_line(),
            d.capabilities_text(),
            ", pointer="@ + yes_no_text(d.capabilities.unwrap().pointer),
        );
        lemma_shown_last_two(text_3, ", lighting="@, yes_no_text(d.capabilities.unwrap().lighting));
        lemma_shown_within(
            d.capabilities_line(),
            d.capabilities_text(),
            ", lighting="@ + yes_no_text(d.capabilities.unwrap().lighting),
        );
    }
    if d.capabilities is None {
        let text_0 = "  - Capabilities: "@;
        let text_1 = text_0 + "not probed"@;
        let text_2 = text_1 + "\n"@;
        lemma_shown_itself(text_1);
        lemma_shown_before(text_1, "\n"@, text_1);
    }
}

proof fn lemma_dpi_line_of_a_device(d: DeviceDiag)
    ensures
        d.dpi is Some ==> shows(d.dpi_line(), "  - DPI: "@ + d.dpi.unwrap()@),
{
    if d.dpi is Some {
        let text_0 = "  - DPI: "@;
        let text_1 = text_0 + d.dpi.unwrap()@;
        let text_2 = text_1 + "\n"@;
        lemma_shown_itself(text_1);
        lemma_shown_before(text_1, "\n"@, text_1);
    }
}

proof fn lemma_model_line_of_a_device(d: DeviceDiag)
    ensures
        shows(d.model_line(), "  - Model: "@ + d.config_key@ + model_text(d)),
{
    let text_0 = "  - Model: "@;
    let text_1 = text_0 + d.config_key@;
    let text_2 = text_1 + model_text(d);
    let text_3 = text_2 + "\n"@;
    lemma_shown_itself(text_2);
    lemma_shown_before(text_2, "\n"@, text_2);
}

proof fn lemma_transports_line_of_a_device(d: DeviceDiag)
    ensures
        d.transports is Some ==> shows(
            d.transports_line(),
            "  - Transports: "@ + transports_text(d.transports.unwrap()),
        ),
{
    if d.transports is Some {
        let text_0 = "  - Transports: "@;
        let text_1 = text_0 + transports_text(d.transports.unwrap());
        let text_2 = text_1 + "\n"@;
        lemma_shown_itself(text_1);
        lemma_shown_before(text_1, "\n"@, text_1);
    }
}

proof fn lemma_render_line_of_a_device(d: DeviceDiag)
    ensures
        shows(d.render_line(), "  - Render: "@ + d.render_text()),
        shows(d.render_line(), " · "@ + slot_text(d.slot)),
{
    let text_0 = "  - Render: "@;
    let text_1 = text_0 + d.render_text();
    let text_2 = text_1 + " · "@;
    let text_3 = text_2 + slot_text(d.slot);
    let text_4 = text_3 + "\n"@;
    lemma_shown_itself(text_1);
    lemma_shown_before(text_1, " · "@, text_1);
    lemma_shown_before(text_2, slot_text(d.slot), text_1);
    lemma_shown_before(text_3, "\n"@, text_1);
    lemma_shown_last_two(text_1, " · "@, slot_text(d.slot));
    lemma_shown_before(text_3, "\n"@, " · "@ + slot_text(d.slot));
}

/// The part of the report on a device says what it is called and of what kind
/// it is, how it is connected and whether it is online, how its battery stands,
/// what it can do, its resolution, its model, its transports, its picture and
/// its slot; each behind its own words.
pub proof fn law_what_is_said_of_a_device(d: DeviceDiag)
    ensures
        shows(d.section(), "- "@ + d.display_name@ + " — "@ + kind_text(d.kind)),
        d.codename is Some ==> shows(d.section(), " (codename: "@ + d.codename.unwrap()@ + ")"@),
        shows(d.section(), "  - Connection: "@ + connection_text(d.connection)),
        shows(d.section(), " · Online: "@ + yes_no_text(d.online)),
        shows(d.section(), " · Battery: "@ + battery_text(d.battery)),
        d.capabilities is Some ==> shows(
            d.section(),
            "buttons="@ + yes_no_text(d.capabilities.unwrap().buttons),
        ),
        d.capabilities is Some ==> shows(
            d.section(),
            ", pointer="@ + yes_no_text(d.capabilities.unwrap().pointer),
        ),
        d.capabilities is Some ==> shows(
            d.section(),
            ", lighting="@ + yes_no_text(d.capabilities.unwrap().lighting),
        ),
        d.capabilities is None ==> shows(d.section(), "  - Capabilities: "@ + "not probed"@),
        d.dpi is Some ==> shows(d.section(), "  - DPI: "@ + d.dpi.unwrap()@),
        shows(d.section(), "  - Model: "@ + d.config_key@ + model_text(d)),
        d.transports is Some ==> shows(
            d.section(),
            "  - Transports: "@ + transports_text(d.transports.unwrap()),
        ),
        shows(d.section(), "  - Render: "@ + d.render_text()),
        shows(d.section(), " · "@ + slot_text(d.slot)),
{
    let up_to_0 = d.name_line();
    let up_to_1 = up_to_0 + d.connection_line();
    let up_to_2 = up_to_1 + d.capabilities_line();
    let up_to_3 = up_to_2 + d.dpi_line();
    let up_to_4 = up_to_3 + d.model_line();
    let up_to_5 = up_to_4 + d.transports_line();
    let up_to_6 = up_to_5 + d.render_line();
    lemma_name_line_of_a_device(d);
    lemma_shown_itself(up_to_0);
    lemma_shown_before(up_to_0, d.connection_line(), up_to_0);
    lemma_shown_before(up_to_1, d.capabilities_line(), up_to_0);
    lemma_shown_before(up_to_2, d.dpi_line(), up_to_0);
    lemma_shown_before(up_to_3, d.model_line(), up_to_0);
    lemma_shown_before(up_to_4, d.transports_line(), up_to_0);
    lemma_shown_before(up_to_5, d.render_line(), up_to_0);
    lemma_shown_within(
        d.section(),
        d.name_line(),
        "- "@ + d.display_name@ + " — "@ + kind_text(d.kind),
    );
    if d.codename is Some {
        lemma_shown_within(
            d.section(),
            d.name_line(),
            " (codename: "@ + d.codename.unwrap()@ + ")"@,
        );
    }
    lemma_connection_line_of_a_device(d);
    lemma_shown_last(up_to_0, d.connection_line());
    lemma_shown_before(up_to_1, d.capabilities_line(), d.connection_line());
    lemma_shown_before(up_to_2, d.dpi_line(), d.connection_line());
    lemma_shown_before(up_to_3, d.model_line(), d.connection_line());
    lemma_shown_before(up_to_4, d.transports_line(), d.connection_line());
    lemma_shown_before(up_to_5, d.render_line(), d.connection_line());
    lemma_shown_within(
        d.section(),
        d.connection_line(),
        "  - Connection: "@ + connection_text(d.connection),
    );
    lemma_shown_within(d.section(), d.connection_line(), " · Online: "@ + yes_no_text(d.online));
    lemma_shown_within(d.section(), d.connection_line(), " · Battery: "@ + battery_text(d.battery));
    lemma_capabilities_line_of_a_device(d);
    lemma_shown_last(up_to_1, d.capabilities_line());
    lemma_shown_before(up_to_2, d.dpi_line(), d.capabilities_line());
    lemma_shown_before(up_to_3, d.model_line(), d.capabilities_line());
    lemma_shown_before(up_to_4, d.transports_line(), d.capabilities_line());
    lemma_shown_before(up_to_5, d.render_line(), d.capabilities_line());
    if d.capabilities is Some {
        lemma_shown_within(
            d.section(),
            d.capabilities_line(),
            "buttons="@ + yes_no_text(d.capabilities.unwrap().buttons),
        );
    }
    if d.capabilities is Some {
        lemma_shown_within(
            d.section(),
            d.capabilities_line(),
            ", pointer="@ + yes_no_text(d.capabilities.unwrap().pointer),
        );
    }
    if d.capabilities is Some {
        lemma_shown_within(
            d.section(),
            d.capabilities_line(),
            ", lighting="@ + yes_no_text(d.capabilities.unwrap().lighting),
        );
    }
    if d.capabilities is None {
        lemma_shown_within(
            d.section(),
            d.capabilities_line(),
            "  - Capabilities: "@ + "not probed"@,
        );
    }
    lemma_dpi_line_of_a_device(d);
    lemma_shown_last(up_to_2, d.dpi_line());
    lemma_shown_before(up_to_3, d.model_line(), d.dpi_line());
    lemma_shown_before(up_to_4, d.transports_line(), d.dpi_line());
    lemma_shown_before(up_to_5, d.render_line(), d.dpi_line());
    if d.dpi is Some {
        lemma_shown_within(d.section(), d.dpi_line(), "  - DPI: "@ + d.dpi.unwrap()@);
    }
    lemma_model_line_of_a_device(d);
    lemma_shown_last(up_to_3, d.model_line());
    lemma_shown_before(up_to_4, d.transports_line(), d.model_line());
    lemma_shown_before(up_to_5, d.render_line(), d.model_line());
    lemma_shown_within(d.section(), d.model_line(), "  - Model: "@ + d.config_key@ + model_text(d));
    lemma_transports_line_of_a_device(d);
    lemma_shown_last(up_to_4, d.transports_line());
    lemma_shown_before(up_to_5, d.render_line(), d.transports_line());
    if d.transports is Some {
        lemma_shown_within(
            d.section(),
            d.transports_line(),
            "  - Transports: "@ + transports_text(d.transports.unwrap()),
        );
    }
    lemma_render_line_of_a_device(d);
    lemma_shown_last(up_to_5, d.render_line());
    lemma_shown_within(d.section(), d.render_line(), "  - Render: "@ + d.render_text());
    lemma_shown_within(d.section(), d.render_line(), " · "@ + slot_text(d.slot));
}

proof fn lemma_app_version_line_of_the_application(app: AppInfo)
    ensures
        shows(app.app_version_line(), "- OpenLogi (GUI): v"@ + app.gui_version@),
        shows(app.app_version_line(), " ("@ + app.build_profile@),
{
    let text_0 = "- OpenLogi (GUI): v"@;
    let text_1 = text_0 + app.gui_version@;
    let text_2 = text_1 + " ("@;
    let text_3 = text_2 + app.build_profile@;
    let text_4 = text_3 + ")\n"@;
    lemma_shown_itself(text_1);
    lemma_shown_before(text_1, " ("@, text_1);
    lemma_shown_before(text_2, app.build_profile@, text_1);
    lemma_shown_before(text_3, ")\n"@, text_1);
    lemma_shown_last_two(text_1, " ("@, app.build_profile@);
    lemma_shown_before(text_3, ")\n"@, " ("@ + app.build_profile@);
}

proof fn lemma_agent_line_of_the_application(app: AppInfo)
    ensures
        shows(app.agent_line(), "- Agent: "@ + app.agent_text() + "\n"@),
{
    let text_0 = "- Agent: "@;
    let text_1 = text_0 + app.agent_text();
    let text_2 = text_1 + "\n"@;
    lemma_shown_itself(text_2);
}

proof fn lemma_protocol_line_of_the_application(app: AppInfo)
    ensures
        shows(app.protocol_line(), "- IPC protocol: "@ + app.protocol_text() + "\n"@),
{
    let text_0 = "- IPC protocol: "@;
    let text_1 = text_0 + app.protocol_text();
    let text_2 = text_1 + "\n"@;
    lemma_shown_itself(text_2);
}

proof fn lemma_inventory_line_of_the_application(app: AppInfo)
    ensures
        shows(app.inventory_line(), "- Inventory: "@ + app.inventory_text() + "\n"@),
{
    let text_0 = "- Inventory: "@;
    let text_1 = text_0 + app.inventory_text();
    let text_2 = text_1 + "\n"@;
    lemma_shown_itself(text_2);
}

proof fn lemma_os_line_of_the_application(app: AppInfo)
    ensures
        shows(app.os_line(), "- OS: "@ + app.os_full_text() + "\n"@),
{
    let text_0 = "- OS: "@;
    let text_1 = text_0 + app.os_full_text();
    let text_2 = text_1 + "\n"@;
    lemma_shown_itself(text_2);
}

proof fn lemma_locale_line_of_the_application(app: AppInfo)
    ensures
        shows(app.locale_line(), "- Locale: "@ + text_or(app.system_locale, "unknown"@)),
        shows(app.locale_line(), " (UI: "@ + text_or(app.ui_language, "follow system"@)),
{
    let text_0 = "- Locale: "@;
    let text_1 = text_0 + text_or(app.system_locale, "unknown"@);
    let text_2 = text_1 + " (UI: "@;
    let text_3 = text_2 + text_or(app.ui_language, "follow system"@);
    let text_4 = text_3 + ")\n"@;
    lemma_shown_itself(text_1);
    lemma_shown_before(text_1, " (UI: "@, text_1);
    lemma_shown_before(text_2, text_or(app.ui_language, "follow system"@), text_1);
    lemma_shown_before(text_3, ")\n"@, text_1);
    lemma_shown_last_two(text_1, " (UI: "@, text_or(app.ui_language, "follow system"@));
    lemma_shown_before(text_3, ")\n"@, " (UI: "@ + text_or(app.ui_language, "follow system"@));
}

proof fn lemma_access_line_of_the_application(app: AppInfo)
    ensures
        shows(app.access_line(), "- Accessibility: "@ + granted_text(app.accessibility_granted)),
        shows(
            app.access_line(),
            " · Input hook: "@ + state_text(app.hook_installed, "installed"@, "not installed"@),
        ),
{
    let text_0 = "- Accessibility: "@;
    let text_1 = text_0 + granted_text(app.accessibility_granted);
    let text_2 = text_1 + " · Input hook: "@;
    let text_3 = text_2 + state_text(app.hook_installed, "installed"@, "not installed"@);
    let text_4 = text_3 + "\n"@;
    lemma_shown_itself(text_1);
    lemma_shown_before(text_1, " · Input hook: "@, text_1);
    lemma_shown_before(
        text_2,
        state_text(app.hook_installed, "installed"@, "not installed"@),
        text_1,
    );
    lemma_shown_before(text_3, "\n"@, text_1);
    lemma_shown_last_two(
        text_1,
        " · Input hook: "@,
        state_text(app.hook_installed, "installed"@, "not installed"@),
    );
    lemma_shown_before(
        text_3,
        "\n"@,
        " · Input hook: "@ + state_text(app.hook_installed, "installed"@, "not installed"@),
    );
}

proof fn lemma_switches_line_of_the_application(app: AppInfo)
    ensures
        shows(
            app.switches_line(),
            "- Launch at login: "@ + state_text(app.launch_at_login, "yes"@, "no"@),
        ),
        shows(
            app.switches_line(),
            " · Menu bar: "@ + state_text(app.show_in_menu_bar, "yes"@, "no"@),
        ),
        shows(
            app.switches_line(),
            " · Update check: "@ + state_text(app.check_for_updates, "on"@, "off"@),
        ),
{
    let text_0 = "- Launch at login: "@;
    let text_1 = text_0 + state_text(app.launch_at_login, "yes"@, "no"@);
    let text_2 = text_1 + " · Menu bar: "@;
    let text_3 = text_2 + state_text(app.show_in_menu_bar, "yes"@, "no"@);
    let text_4 = text_3 + " · Update check: "@;
    let text_5 = text_4 + state_text(app.check_for_updates, "on"@, "off"@);
    let text_6 = text_5 + "\n"@;
    lemma_shown_itself(text_1);
    lemma_shown_before(text_1, " · Menu bar: "@, text_1);
    lemma_shown_before(text_2, state_text(app.show_in_menu_bar, "yes"@, "no"@), text_1);
    lemma_shown_before(text_3, " · Update check: "@, text_1);
    lemma_shown_before(text_4, state_text(app.check_for_updates, "on"@, "off"@), text_1);
    lemma_shown_before(text_5, "\n"@, text_1);
    lemma_shown_last_two(text_1, " · Menu bar: "@, state_text(app.show_in_menu_bar, "yes"@, "no"@));
    lemma_shown_before(
        text_3,
        " · Update check: "@,
        " · Menu bar: "@ + state_text(app.show_in_menu_bar, "yes"@, "no"@),
    );
    lemma_shown_before(
        text_4,
        state_text(app.check_for_updates, "on"@, "off"@),
        " · Menu bar: "@ + state_text(app.show_in_menu_bar, "yes"@, "no"@),
    );
    lemma_shown_before(
        text_5,
        "\n"@,
        " · Menu bar: "@ + state_text(app.show_in_menu_bar, "yes"@, "no"@),
    );
    lemma_shown_last_two(
        text_3,
        " · Update check: "@,
        state_text(app.check_for_updates, "on"@, "off"@),
    );
    lemma_shown_before(
        text_5,
        "\n"@,
        " · Update check: "@ + state_text(app.check_for_updates, "on"@, "off"@),
    );
}

proof fn lemma_source_line_of_the_application(app: AppInfo)
    ensures
        shows(
            app.source_line(),
            "- Running from: "@ + bundle_text(app.running_from_bundle) + "\n"@,
        ),
{
    let text_0 = "- Running from: "@;
    let text_1 = text_0 + bundle_text(app.running_from_bundle);
    let text_2 = text_1 + "\n"@;
    lemma_shown_itself(text_2);
}

proof fn lemma_config_line_of_the_application(app: AppInfo)
    ensures
        shows(
            app.config_line(),
            "- Config: schema "@
                + number_text(match app.config_schema_version { Some(n) => Some(n as int), None => None }),
        ),
        shows(
            app.config_line(),
            " · "@
                + number_text(match app.configured_device_count { Some(n) => Some(n as int), None => None })
                + " configured device(s) · thumbwheel "@,
        ),
        shows(
            app.config_line(),
            " configured device(s) · thumbwheel "@
                + number_text(match app.thumbwheel_sensitivity { Some(n) => Some(n as int), None => None }),
        ),
{
    let text_0 = "- Config: schema "@;
    let text_1 = text_0
        + number_text(match app.config_schema_version { Some(n) => Some(n as int), None => None });
    let text_2 = text_1 + " · "@;
    let text_3 = text_2
        + number_text(match app.configured_device_count { Some(n) => Some(n as int), None => None });
    let text_4 = text_3 + " configured device(s) · thumbwheel "@;
    let text_5 = text_4
        + number_text(match app.thumbwheel_sensitivity { Some(n) => Some(n as int), None => None });
    let text_6 = text_5 + "\n\n"@;
    lemma_shown_itself(text_1);
    lemma_shown_before(text_1, " · "@, text_1);
    lemma_shown_before(
        text_2,
        number_text(match app.configured_device_count { Some(n) => Some(n as int), None => None }),
        text_1,
    );
    lemma_shown_before(text_3, " configured device(s) · thumbwheel "@, text_1);
    lemma_shown_before(
        text_4,
        number_text(match app.thumbwheel_sensitivity { Some(n) => Some(n as int), None => None }),
        text_1,
    );
    lemma_shown_before(text_5, "\n\n"@, text_1);
    lemma_shown_last_three(
        text_1,
        " · "@,
        number_text(match app.configured_device_count { Some(n) => Some(n as int), None => None }),
        " configured device(s) · thumbwheel "@,
    );
    lemma_shown_before(
        text_4,
        number_text(match app.thumbwheel_sensitivity { Some(n) => Some(n as int), None => None }),
        " · "@
            + number_text(match app.configured_device_count { Some(n) => Some(n as int), None => None })
            + " configured device(s) · thumbwheel "@,
    );
    lemma_shown_before(
        text_5,
        "\n\n"@,
        " · "@
            + number_text(match app.configured_device_count { Some(n) => Some(n as int), None => None })
            + " configured device(s) · thumbwheel "@,
    );
    lemma_shown_last_two(
        text_3,
        " configured device(s) · thumbwheel "@,
        number_text(match app.thumbwheel_sensitivity { Some(n) => Some(n as int), None => None }),
    );
    lemma_shown_before(
        text_5,
        "\n\n"@,
        " configured device(s) · thumbwheel "@
            + number_text(match app.thumbwheel_sensitivity { Some(n) => Some(n as int), None => None }),
    );
}

/// The part of the report on the application says its version and how it was
/// built, whether the agent and its protocol go with it, how far the search for
/// devices got, the system it runs on, the languages, what it may do, what is
/// switched on, where it runs from and what is configured; each behind its own
/// words.
pub proof fn law_what_is_said_of_the_application(app: AppInfo)
    ensures
        shows(app.section(), "- OpenLogi (GUI): v"@ + app.gui_version@),
        shows(app.section(), " ("@ + app.build_profile@),
        shows(app.section(), "- Agent: "@ + app.agent_text() + "\n"@),
        shows(app.section(), "- IPC protocol: "@ + app.protocol_text() + "\n"@),
        shows(app.section(), "- Inventory: "@ + app.inventory_text() + "\n"@),
        shows(app.section(), "- OS: "@ + app.os_full_text() + "\n"@),
        shows(app.section(), "- Locale: "@ + text_or(app.system_locale, "unknown"@)),
        shows(app.section(), " (UI: "@ + text_or(app.ui_language, "follow system"@)),
        shows(app.section(), "- Accessibility: "@ + granted_text(app.accessibility_granted)),
        shows(
            app.section(),
            " · Input hook: "@ + state_text(app.hook_installed, "installed"@, "not installed"@),
        ),
        shows(
            app.section(),
            "- Launch at login: "@ + state_text(app.launch_at_login, "yes"@, "no"@),
        ),
        shows(app.section(), " · Menu bar: "@ + state_text(app.show_in_menu_bar, "yes"@, "no"@)),
        shows(
            app.section(),
            " · Update check: "@ + state_text(app.check_for_updates, "on"@, "off"@),
        ),
        shows(app.section(), "- Running from: "@ + bundle_text(app.running_from_bundle) + "\n"@),
        shows(
            app.section(),
            "- Config: schema "@
                + number_text(match app.config_schema_version { Some(n) => Some(n as int), None => None }),
        ),
        shows(
            app.section(),
            " · "@
                + number_text(match app.configured_device_count { Some(n) => Some(n as int), None => None })
                + " configured device(s) · thumbwheel "@,
        ),
        shows(
            app.section(),
            " configured device(s) · thumbwheel "@
                + number_text(match app.thumbwheel_sensitivity { Some(n) => Some(n as int), None => None }),
        ),
{
    let up_to_0 = "**App**\n"@;
    let up_to_1 = up_to_0 + app.app_version_line();
    let up_to_2 = up_to_1 + app.agent_line();
    let up_to_3 = up_to_2 + app.protocol_line();
    let up_to_4 = up_to_3 + app.inventory_line();
    let up_to_5 = up_to_4 + app.os_line();
    let up_to_6 = up_to_5 + app.locale_line();
    let up_to_7 = up_to_6 + app.access_line();
    let up_to_8 = up_to_7 + app.switches_line();
    let up_to_9 = up_to_8 + app.source_line();
    let up_to_10 = up_to_9 + app.config_line();
    lemma_app_version_line_of_the_application(app);
    lemma_shown_last(up_to_0, app.app_version_line());
    lemma_shown_before(up_to_1, app.agent_line(), app.app_version_line());
    lemma_shown_before(up_to_2, app.protocol_line(), app.app_version_line());
    lemma_shown_before(up_to_3, app.inventory_line(), app.app_version_line());
    lemma_shown_before(up_to_4, app.os_line(), app.app_version_line());
    lemma_shown_before(up_to_5, app.locale_line(), app.app_version_line());
    lemma_shown_before(up_to_6, app.access_line(), app.app_version_line());
    lemma_shown_before(up_to_7, app.switches_line(), app.app_version_line());
    lemma_shown_before(up_to_8, app.source_line(), app.app_version_line());
    lemma_shown_before(up_to_9, app.config_line(), app.app_version_line());
    lemma_shown_within(
        app.section(),
        app.app_version_line(),
        "- OpenLogi (GUI): v"@ + app.gui_version@,
    );
    lemma_shown_within(app.section(), app.app_version_line(), " ("@ + app.build_profile@);
    lemma_agent_line_of_the_application(app);
    lemma_shown_last(up_to_1, app.agent_line());
    lemma_shown_before(up_to_2, app.protocol_line(), app.agent_line());
    lemma_shown_before(up_to_3, app.inventory_line(), app.agent_line());
    lemma_shown_before(up_to_4, app.os_line(), app.agent_line());
    lemma_shown_before(up_to_5, app.locale_line(), app.agent_line());
    lemma_shown_before(up_to_6, app.access_line(), app.agent_line());
    lemma_shown_before(up_to_7, app.switches_line(), app.agent_line());
    lemma_shown_before(up_to_8, app.source_line(), app.agent_line());
    lemma_shown_before(up_to_9, app.config_line(), app.agent_line());
    lemma_shown_within(app.section(), app.agent_line(), "- Agent: "@ + app.agent_text() + "\n"@);
    lemma_protocol_line_of_the_application(app);
    lemma_shown_last(up_to_2, app.protocol_line());
    lemma_shown_before(up_to_3, app.inventory_line(), app.protocol_line());
    lemma_shown_before(up_to_4, app.os_line(), app.protocol_line());
    lemma_shown_before(up_to_5, app.locale_line(), app.protocol_line());
    lemma_shown_before(up_to_6, app.access_line(), app.protocol_line());
    lemma_shown_before(up_to_7, app.switches_line(), app.protocol_line());
    lemma_shown_before(up_to_8, app.source_line(), app.protocol_line());
    lemma_shown_before(up_to_9, app.config_line(), app.protocol_line());
    lemma_shown_within(
        app.section(),
        app.protocol_line(),
        "- IPC protocol: "@ + app.protocol_text() + "\n"@,
    );
    lemma_inventory_line_of_the_application(app);
    lemma_shown_last(up_to_3, app.inventory_line());
    lemma_shown_before(up_to_4, app.os_line(), app.inventory_line());
    lemma_shown_before(up_to_5, app.locale_line(), app.inventory_line());
    lemma_shown_before(up_to_6, app.access_line(), app.inventory_line());
    lemma_shown_before(up_to_7, app.switches_line(), app.inventory_line());
    lemma_shown_before(up_to_8, app.source_line(), app.inventory_line());
    lemma_shown_before(up_to_9, app.config_line(), app.inventory_line());
    lemma_shown_within(
        app.section(),
        app.inventory_line(),
        "- Inventory: "@ + app.inventory_text() + "\n"@,
    );
    lemma_os_line_of_the_application(app);
    lemma_shown_last(up_to_4, app.os_line());
    lemma_shown_before(up_to_5, app.locale_line(), app.os_line());
    lemma_shown_before(up_to_6, app.access_line(), app.os_line());
    lemma_shown_before(up_to_7, app.switches_line(), app.os_line());
    lemma_shown_before(up_to_8, app.source_line(), app.os_line());
    lemma_shown_before(up_to_9, app.config_line(), app.os_line());
    lemma_shown_within(app.section(), app.os_line(), "- OS: "@ + app.os_full_text() + "\n"@);
    lemma_locale_line_of_the_application(app);
    lemma_shown_last(up_to_5, app.locale_line());
    lemma_shown_before(up_to_6, app.access_line(), app.locale_line());
    lemma_shown_before(up_to_7, app.switches_line(), app.locale_line());
    lemma_shown_before(up_to_8, app.source_line(), app.locale_line());
    lemma_shown_before(up_to_9, app.config_line(), app.locale_line());
    lemma_shown_within(
        app.section(),
        app.locale_line(),
        "- Locale: "@ + text_or(app.system_locale, "unknown"@),
    );
    lemma_shown_within(
        app.section(),
        app.locale_line(),
        " (UI: "@ + text_or(app.ui_language, "follow system"@),
    );
    lemma_access_line_of_the_application(app);
    lemma_shown_last(up_to_6, app.access_line());
    lemma_shown_before(up_to_7, app.switches_line(), app.access_line());
    lemma_shown_before(up_to_8, app.source_line(), app.access_line());
    lemma_shown_before(up_to_9, app.config_line(), app.access_line());
    lemma_shown_within(
        app.section(),
        app.access_line(),
        "- Accessibility: "@ + granted_text(app.accessibility_granted),
    );
    lemma_shown_within(
        app.section(),
        app.access_line(),
        " · Input hook: "@ + state_text(app.hook_installed, "installed"@, "not installed"@),
    );
    lemma_switches_line_of_the_application(app);
    lemma_shown_last(up_to_7, app.switches_line());
    lemma_shown_before(up_to_8, app.source_line(), app.switches_line());
    lemma_shown_before(up_to_9, app.config_line(), app.switches_line());
    lemma_shown_within(
        app.section(),
        app.switches_line(),
        "- Launch at login: "@ + state_text(app.launch_at_login, "yes"@, "no"@),
    );
    lemma_shown_within(
        app.section(),
        app.switches_line(),
        " · Menu bar: "@ + state_text(app.show_in_menu_bar, "yes"@, "no"@),
    );
    lemma_shown_within(
        app.section(),
        app.switches_line(),
        " · Update check: "@ + state_text(app.check_for_updates, "on"@, "off"@),
    );
    lemma_source_line_of_the_application(app);
    lemma_shown_last(up_to_8, app.source_line());
    lemma_shown_before(up_to_9, app.config_line(), app.source_line());
    lemma_shown_within(
        app.section(),
        app.source_line(),
        "- Running from: "@ + bundle_text(app.running_from_bundle) + "\n"@,
    );
    lemma_config_line_of_the_application(app);
    lemma_shown_last(up_to_9, app.config_line());
    lemma_shown_within(
        app.section(),
        app.config_line(),
        "- Config: schema "@
            + number_text(match app.config_schema_version { Some(n) => Some(n as int), None => None }),
    );
    lemma_shown_within(
        app.section(),
        app.config_line(),
        " · "@
            + number_text(match app.configured_device_count { Some(n) => Some(n as int), None => None })
            + " configured device(s) · thumbwheel "@,
    );
    lemma_shown_within(
        app.section(),
        app.config_line(),
        " configured device(s) · thumbwheel "@
            + number_text(match app.thumbwheel_sensitivity { Some(n) => Some(n as int), None => None }),
    );
}

proof fn lemma_tier_line_of_the_pictures(assets: AssetInfo)
    ensures
        shows(assets.tier_line(), "- Source: "@ + asset_source_text(assets.source)),
        shows(assets.tier_line(), " · Index: "@ + assets.index_text()),
        shows(assets.tier_line(), " · User cache: "@ + present_text(assets.user_cache_present)),
{
    let text_0 = "- Source: "@;
    let text_1 = text_0 + asset_source_text(assets.source);
    let text_2 = text_1 + " · Index: "@;
    let text_3 = text_2 + assets.index_text();
    let text_4 = text_3 + " · User cache: "@;
    let text_5 = text_4 + present_text(assets.user_cache_present);
    let text_6 = text_5 + "\n"@;
    lemma_shown_itself(text_1);
    lemma_shown_before(text_1, " · Index: "@, text_1);
    lemma_shown_before(text_2, assets.index_text(), text_1);
    lemma_shown_before(text_3, " · User cache: "@, text_1);
    lemma_shown_before(text_4, present_text(assets.user_cache_present), text_1);
    lemma_shown_before(text_5, "\n"@, text_1);
    lemma_shown_last_two(text_1, " · Index: "@, assets.index_text());
    lemma_shown_before(text_3, " · User cache: "@, " · Index: "@ + assets.index_text());
    lemma_shown_before(
        text_4,
        present_text(assets.user_cache_present),
        " · Index: "@ + assets.index_text(),
    );
    lemma_shown_before(text_5, "\n"@, " · Index: "@ + assets.index_text());
    lemma_shown_last_two(text_3, " · User cache: "@, present_text(assets.user_cache_present));
    lemma_shown_before(text_5, "\n"@, " · User cache: "@ + present_text(assets.user_cache_present));
}

proof fn lemma_cache_line_of_the_pictures(assets: AssetInfo)
    ensures
        shows(assets.cache_line(), "- Cache path: "@ + assets.cache_path@),
        shows(assets.cache_line(), " · Bundle assets: "@ + present_text(assets.bundle_present)),
{
    let text_0 = "- Cache path: "@;
    let text_1 = text_0 + assets.cache_path@;
    let text_2 = text_1 + " · Bundle assets: "@;
    let text_3 = text_2 + present_text(assets.bundle_present);
    let text_4 = text_3 + "\n\n"@;
    lemma_shown_itself(text_1);
    lemma_shown_before(text_1, " · Bundle assets: "@, text_1);
    lemma_shown_before(text_2, present_text(assets.bundle_present), text_1);
    lemma_shown_before(text_3, "\n\n"@, text_1);
    lemma_shown_last_two(text_1, " · Bundle assets: "@, present_text(assets.bundle_present));
    lemma_shown_before(
        text_3,
        "\n\n"@,
        " · Bundle assets: "@ + present_text(assets.bundle_present),
    );
}

/// The part of the report on pictures says where they come from, whether the
/// registry is loaded, and what is there; each behind its own words.
pub proof fn law_what_is_said_of_the_pictures(assets: AssetInfo)
    ensures
        shows(assets.section(), "- Source: "@ + asset_source_text(assets.source)),
        shows(assets.section(), " · Index: "@ + assets.index_text()),
        shows(assets.section(), " · User cache: "@ + present_text(assets.user_cache_present)),
        shows(assets.section(), "- Cache path: "@ + assets.cache_path@),
        shows(assets.section(), " · Bundle assets: "@ + present_text(assets.bundle_present)),
{
    let up_to_0 = "**Assets**\n"@;
    let up_to_1 = up_to_0 + assets.tier_line();
    let up_to_2 = up_to_1 + assets.cache_line();
    lemma_tier_line_of_the_pictures(assets);
    lemma_shown_last(up_to_0, assets.tier_line());
    lemma_shown_before(up_to_1, assets.cache_line(), assets.tier_line());
    lemma_shown_within(
        assets.section(),
        assets.tier_line(),
        "- Source: "@ + asset_source_text(assets.source),
    );
    lemma_shown_within(assets.section(), assets.tier_line(), " · Index: "@ + assets.index_text());
    lemma_shown_within(
        assets.section(),
        assets.tier_line(),
        " · User cache: "@ + present_text(assets.user_cache_present),
    );
    lemma_cache_line_of_the_pictures(assets);
    lemma_shown_last(up_to_1, assets.cache_line());
    lemma_shown_within(
        assets.section(),
        assets.cache_line(),
        "- Cache path: "@ + assets.cache_path@,
    );
    lemma_shown_within(
        assets.section(),
        assets.cache_line(),
        " · Bundle assets: "@ + present_text(assets.bundle_present),
    );
}

proof fn lemma_sections_are_shown(devices: Seq<DeviceDiag>, i: int)
    requires
        0 <= i < devices.len(),
    ensures
        shows(device_sections(devices), devices[i].section()),
    decreases devices.len(),
{
    let before = device_sections(devices.drop_last());
    let last = devices.last().section();
    if i == devices.len() - 1 {
        lemma_shown_last(before, last);
    } else {
        lemma_sections_are_shown(devices.drop_last(), i);
        lemma_shown_before(before, last, devices[i].section());
    }
}

proof fn lemma_receivers_are_shown(receivers: Seq<ReceiverDiag>, i: int)
    requires
        0 <= i < receivers.len(),
    ensures
        shows(receiver_lines(receivers), receivers[i].entry_line()),
    decreases receivers.len(),
{
    let before = receiver_lines(receivers.drop_last());
    let last = receivers.last().entry_line();
    if i == receivers.len() - 1 {
        lemma_shown_last(before, last);
    } else {
        lemma_receivers_are_shown(receivers.drop_last(), i);
        lemma_shown_before(before, last, receivers[i].entry_line());
    }
}

proof fn lemma_report_parts(report: DiagnosticsReport)
    ensures
        report.markdown() == "### OpenLogi Diagnostics\n\n"@ + report.app.section()
            + report.assets.section() + report.devices_section().drop_last(),
{
    law_one_line_break_is_left_off(report);
    let before = "### OpenLogi Diagnostics\n\n"@ + report.app.section() + report.assets.section();
    let last = report.devices_section();
    assert((before + last).drop_last() =~= before + last.drop_last());
}

proof fn lemma_receivers_section(report: DiagnosticsReport)
    requires
        report.receivers@.len() > 0,
    ensures
        shows(
            report.receivers_section(),
            "**Receivers ("@ + decimal(report.receivers@.len()) + ")**\n"@,
        ),
        shows(report.receivers_section(), receiver_lines(report.receivers@)),
{
    let count = decimal(report.receivers@.len());
    let lines = receiver_lines(report.receivers@);
    let head = "\n**Receivers ("@;
    reveal_strlit("\n**Receivers (");
    reveal_strlit("**Receivers (");
    let line_break = head.take(1);
    assert(head =~= line_break + "**Receivers ("@);
    lemma_shown_last_three(line_break, "**Receivers ("@, count, ")**\n"@);
    lemma_shown_before(
        head + count + ")**\n"@,
        lines,
        "**Receivers ("@ + count + ")**\n"@,
    );
    lemma_shown_last(head + count + ")**\n"@, lines);
}

proof fn lemma_entry(receiver: ReceiverDiag)
    ensures
        shows(
            receiver.entry_line(),
            "- "@ + receiver.name@ + " (VID "@ + hexadecimal(receiver.vendor_id as nat, 4)
                + " / PID "@ + hexadecimal(receiver.product_id as nat, 4),
        ),
{
    let part = "- "@ + receiver.name@ + " (VID "@ + hexadecimal(receiver.vendor_id as nat, 4)
        + " / PID "@ + hexadecimal(receiver.product_id as nat, 4);
    lemma_shown_itself(part);
    lemma_shown_before(part, ")\n"@, part);
}

/// The report says of every device and of every receiver what is to be said, and
/// how many there are of each; and the application and the pictures are never
/// left out.
pub proof fn law_nothing_is_left_out_of_a_report(report: DiagnosticsReport, i: int)
    ensures
        shows(report.markdown(), report.app.section()),
        shows(report.markdown(), report.assets.section()),
        shows(
            report.devices_section(),
            "**Devices ("@ + decimal(report.devices@.len()) + ")**\n"@,
        ),
        0 <= i < report.devices@.len() ==> shows(
            report.devices_section(),
            report.devices@[i].section(),
        ),
        report.receivers@.len() > 0 ==> shows(
            report.devices_section(),
            "**Receivers ("@ + decimal(report.receivers@.len()) + ")**\n"@,
        ),
        0 <= i < report.receivers@.len() ==> shows(
            report.devices_section(),
            "- "@ + report.receivers@[i].name@ + " (VID "@ + hexadecimal(
                report.receivers@[i].vendor_id as nat,
                4,
            ) + " / PID "@ + hexadecimal(report.receivers@[i].product_id as nat, 4),
        ),
        report.devices@.len() == 0 ==> shows(
            report.devices_section(),
            "- No devices detected.\n"@,
        ),
{
    let title = "### OpenLogi Diagnostics\n\n"@;
    let app = report.app.section();
    let assets = report.assets.section();
    let whole = report.devices_section();
    lemma_report_parts(report);
    lemma_shown_last(title, app);
    lemma_shown_before(title + app, assets, app);
    lemma_shown_before(title + app + assets, whole.drop_last(), app);
    lemma_shown_last(title + app, assets);
    lemma_shown_before(title + app + assets, whole.drop_last(), assets);
    let head = "**Devices ("@ + decimal(report.devices@.len()) + ")**\n"@;
    let empty = report.empty_line();
    let devices = device_sections(report.devices@);
    let receivers = report.receivers_section();
    lemma_shown_itself(head);
    lemma_shown_before(head, empty, head);
    lemma_shown_before(head + empty, devices, head);
    lemma_shown_before(head + empty + devices, receivers, head);
    lemma_shown_last(head, empty);
    lemma_shown_before(head + empty, devices, empty);
    lemma_shown_before(head + empty + devices, receivers, empty);
    lemma_shown_last(head + empty, devices);
    lemma_shown_before(head + empty + devices, receivers, devices);
    lemma_shown_last(head + empty + devices, receivers);
    if 0 <= i < report.devices@.len() {
        lemma_sections_are_shown(report.devices@, i);
        lemma_shown_within(whole, devices, report.devices@[i].section());
    }
    if report.receivers@.len() > 0 {
        let lines = receiver_lines(report.receivers@);
        lemma_receivers_section(report);
        lemma_shown_within(
            whole,
            receivers,
            "**Receivers ("@ + decimal(report.receivers@.len()) + ")**\n"@,
        );
        lemma_shown_within(whole, receivers, lines);
        if 0 <= i < report.receivers@.len() {
            let receiver = report.receivers@[i];
            lemma_receivers_are_shown(report.receivers@, i);
            lemma_shown_within(whole, lines, receiver.entry_line());
            lemma_entry(receiver);
            lemma_shown_within(
                whole,
                receiver.entry_line(),
                "- "@ + receiver.name@ + " (VID "@ + hexadecimal(receiver.vendor_id as nat, 4)
                    + " / PID "@ + hexadecimal(receiver.product_id as nat, 4),
            );
        }
    }
}

/// Where there are two words to choose from, each is said of what it means: the
/// first where it is so, and the second where it is not.
pub proof fn law_yes_is_said_where_it_is_so(value: bool, yes: Seq<char>, no: Seq<char>)
    ensures
        yes_no_text(value) == "yes"@ <==> value,
        granted_text(value) == "granted"@ <==> value,
        present_text(value) == "present"@ <==> value,
        bundle_text(value) == "app bundle (release)"@ <==> value,
        state_text(Some(value), yes, no) == (if value { yes } else { no }),
        state_text(None, yes, no) == "unknown"@,
        !value ==> yes_no_text(value) == "no"@ && granted_text(value) == "denied"@ && present_text(
            value,
        ) == "absent"@ && bundle_text(value) == "source build (dev)"@,
{
    reveal_strlit("yes");
    reveal_strlit("no");
    reveal_strlit("granted");
    reveal_strlit("denied");
    reveal_strlit("present");
    reveal_strlit("absent");
    reveal_strlit("app bundle (release)");
    reveal_strlit("source build (dev)");
    assert("yes"@.len() != "no"@.len());
    assert("granted"@.len() != "denied"@.len());
    assert("present"@.len() != "absent"@.len());
    assert("app bundle (release)"@.len() != "source build (dev)"@.len());
}

/// A number is said in full, with a sign where it is less than nothing; the
/// index of pictures with how many there are, where that is known; and a system
/// that has a name by that name.
pub proof fn law_numbers_and_systems_are_said_as_they_are(value: int, assets: AssetInfo)
    ensures
        value >= 0 ==> number(number_text(Some(value)), 10) == value,
        value < 0 ==> number_text(Some(value))[0] == '-' && number(
            number_text(Some(value)).skip(1),
            10,
        ) == -value,
        assets.index_loaded && assets.index_entries is Some ==> shows(
            assets.index_text(),
            "loaded ("@ + decimal(assets.index_entries.unwrap() as nat),
        ),
        !assets.index_loaded ==> assets.index_text() == "not loaded"@,
        os_text("macos"@) == "macOS"@,
        os_text("linux"@) == "Linux"@,
        os_text("windows"@) == "Windows"@,
{
    reveal_strlit("-");
    reveal_strlit("macos");
    reveal_strlit("linux");
    reveal_strlit("windows");
    assert("macos"@[0] == 'm' && "linux"@[0] == 'l' && "windows"@[0] == 'w');
    if value >= 0 {
        law_a_decimal_reads_as_its_number(value as nat);
    } else {
        law_a_decimal_reads_as_its_number((-value) as nat);
        assert(number_text(Some(value)).skip(1) =~= decimal((-value) as nat));
    }
    if assets.index_loaded && assets.index_entries is Some {
        let part = "loaded ("@ + decimal(assets.index_entries.unwrap() as nat);
        lemma_shown_itself(part);
        lemma_shown_before(part, " models)"@, part);
    }
}

/// Where a device sits is said by its slot, and of a device in none that it is
/// reached directly; of a battery, how much it has left, what it does and how
/// full it is.
pub proof fn law_a_slot_and_a_battery_are_said_as_they_are(slot: u8, battery: BatteryInfo)
    ensures
        slot == DIRECT_DEVICE_INDEX ==> slot_text(slot) == "direct"@,
        slot != DIRECT_DEVICE_INDEX ==> slot_text(slot).take(5) == "Slot "@ && number(
            slot_text(slot).skip(5),
            10,
        ) == slot,
        shows(battery_text(Some(battery)), decimal(battery.percentage as nat) + "% ("@),
        shows(battery_text(Some(battery)), "% ("@ + battery_status_text(battery.status)),
        shows(battery_text(Some(battery)), ", "@ + battery_level_text(battery.level)),
        battery_text(None) == "n/a"@,
{
    reveal_strlit("Slot ");
    law_a_decimal_reads_as_its_number(slot as nat);
    if slot != DIRECT_DEVICE_INDEX {
        assert(slot_text(slot).take(5) =~= "Slot "@);
        assert(slot_text(slot).skip(5) =~= decimal(slot as nat));
    }
    let percentage = decimal(battery.percentage as nat);
    let status = battery_status_text(battery.status);
    let level = battery_level_text(battery.level);
    let one = percentage + "% ("@;
    let two = one + status;
    let three = two + ", "@;
    let four = three + level;
    lemma_shown_itself(one);
    lemma_shown_before(one, status, one);
    lemma_shown_before(two, ", "@, one);
    lemma_shown_before(three, level, one);
    lemma_shown_before(four, ")"@, one);
    lemma_shown_last_two(percentage, "% ("@, status);
    lemma_shown_before(two, ", "@, "% ("@ + status);
    lemma_shown_before(three, level, "% ("@ + status);
    lemma_shown_before(four, ")"@, "% ("@ + status);
    lemma_shown_last_two(two, ", "@, level);
    lemma_shown_before(four, ")"@, ", "@ + level);
}

/// Every kind of device is called by its own name, and by that of no other.
pub proof fn law_a_kind_is_called_by_its_own_name(kind: DeviceKind)
    ensures
        kind_text(kind) == "mouse"@ <==> kind is Mouse,
        kind_text(kind) == "keyboard"@ <==> kind is Keyboard,
        kind_text(kind) == "numpad"@ <==> kind is Numpad,
        kind_text(kind) == "presenter"@ <==> kind is Presenter,
        kind_text(kind) == "remote"@ <==> kind is Remote,
        kind_text(kind) == "trackball"@ <==> kind is Trackball,
        kind_text(kind) == "touchpad"@ <==> kind is Touchpad,
        kind_text(kind) == "tablet"@ <==> kind is Tablet,
        kind_text(kind) == "gamepad"@ <==> kind is Gamepad,
        kind_text(kind) == "joystick"@ <==> kind is Joystick,
        kind_text(kind) == "headset"@ <==> kind is Headset,
        kind_text(kind) == "camera"@ <==> kind is Camera,
        kind_text(kind) == "unknown"@ <==> kind is Unknown,
        kind_text(kind) == "light"@ <==> kind is Light,
{
    reveal_strlit("mouse");
    reveal_strlit("keyboard");
    reveal_strlit("numpad");
    reveal_strlit("presenter");
    reveal_strlit("remote");
    reveal_strlit("trackball");
    reveal_strlit("touchpad");
    reveal_strlit("tablet");
    reveal_strlit("gamepad");
    reveal_strlit("joystick");
    reveal_strlit("headset");
    reveal_strlit("camera");
    reveal_strlit("unknown");
    reveal_strlit("light");
    assert("mouse"@.len() == 5);
    assert("keyboard"@.len() == 8);
    assert("numpad"@.len() == 6);
    assert("presenter"@.len() == 9);
    assert("remote"@.len() == 6);
    assert("trackball"@.len() == 9);
    assert("touchpad"@.len() == 8);
    assert("tablet"@.len() == 6);
    assert("gamepad"@.len() == 7);
    assert("joystick"@.len() == 8);
    assert("headset"@.len() == 7);
    assert("camera"@.len() == 6);
    assert("unknown"@.len() == 7);
    assert("light"@.len() == 5);
    assert("mouse"@[0] != "light"@[0]);
    assert("keyboard"@[0] != "touchpad"@[0]);
    assert("keyboard"@[0] != "joystick"@[0]);
    assert("numpad"@[0] != "remote"@[0]);
    assert("numpad"@[0] != "tablet"@[0]);
    assert("numpad"@[0] != "camera"@[0]);
    assert("presenter"@[0] != "trackball"@[0]);
    assert("remote"@[0] != "tablet"@[0]);
    assert("remote"@[0] != "camera"@[0]);
    assert("touchpad"@[0] != "joystick"@[0]);
    assert("tablet"@[0] != "camera"@[0]);
    assert("gamepad"@[0] != "headset"@[0]);
    assert("gamepad"@[0] != "unknown"@[0]);
    assert("headset"@[0] != "unknown"@[0]);
}

/// Every way to the host is called by its own name, and by that of no other.
pub proof fn law_a_connection_is_called_by_its_own_name(connection: ConnectionKind)
    ensures
        connection_text(connection) == "Logi Bolt receiver"@ <==> connection is BoltReceiver,
        connection_text(connection) == "Logi Unifying receiver"@ <==> connection is UnifyingReceiver,
        connection_text(connection) == "Bluetooth (direct)"@ <==> connection is BluetoothDirect,
        connection_text(connection) == "Wired (USB)"@ <==> connection is Wired,
        connection_text(connection) == "unknown"@ <==> connection is Unknown,
{
    reveal_strlit("Logi Bolt receiver");
    reveal_strlit("Logi Unifying receiver");
    reveal_strlit("Bluetooth (direct)");
    reveal_strlit("Wired (USB)");
    reveal_strlit("unknown");
    assert("Logi Bolt receiver"@.len() == 18);
    assert("Logi Unifying receiver"@.len() == 22);
    assert("Bluetooth (direct)"@.len() == 18);
    assert("Wired (USB)"@.len() == 11);
    assert("unknown"@.len() == 7);
    assert("Logi Bolt receiver"@[0] != "Bluetooth (direct)"@[0]);
}

/// What a battery does has a word of its own.
pub proof fn law_what_a_battery_does_has_its_own_word(status: BatteryStatus)
    ensures
        battery_status_text(status) == "discharging"@ <==> status is Discharging,
        battery_status_text(status) == "charging"@ <==> status is Charging,
        battery_status_text(status) == "charging (slow)"@ <==> status is ChargingSlow,
        battery_status_text(status) == "full"@ <==> status is Full,
        battery_status_text(status) == "error"@ <==> status is Error,
        battery_status_text(status) == "unknown"@ <==> status is Unknown,
{
    reveal_strlit("discharging");
    reveal_strlit("charging");
    reveal_strlit("charging (slow)");
    reveal_strlit("full");
    reveal_strlit("error");
    reveal_strlit("unknown");
    assert("discharging"@.len() == 11);
    assert("charging"@.len() == 8);
    assert("charging (slow)"@.len() == 15);
    assert("full"@.len() == 4);
    assert("error"@.len() == 5);
    assert("unknown"@.len() == 7);
}

/// How full a battery is has a word of its own.
pub proof fn law_how_full_a_battery_is_has_its_own_word(level: BatteryLevel)
    ensures
        battery_level_text(level) == "critical"@ <==> level is Critical,
        battery_level_text(level) == "low"@ <==> level is Low,
        battery_level_text(level) == "good"@ <==> level is Good,
        battery_level_text(level) == "full"@ <==> level is Full,
        battery_level_text(level) == "unknown"@ <==> level is Unknown,
{
    reveal_strlit("critical");
    reveal_strlit("low");
    reveal_strlit("good");
    reveal_strlit("full");
    reveal_strlit("unknown");
    assert("critical"@.len() == 8);
    assert("low"@.len() == 3);
    assert("good"@.len() == 4);
    assert("full"@.len() == 4);
    assert("unknown"@.len() == 7);
    assert("good"@[0] != "full"@[0]);
}

/// Where pictures come from has words of its own.
pub proof fn law_where_pictures_come_from_has_its_own_words(source: AssetSource)
    ensures
        asset_source_text(source) == "app bundle"@ <==> source is Bundle,
        asset_source_text(source) == "user cache"@ <==> source is UserCache,
        asset_source_text(source) == "none"@ <==> source is Neither,
{
    reveal_strlit("app bundle");
    reveal_strlit("user cache");
    reveal_strlit("none");
    assert("app bundle"@.len() == 10);
    assert("user cache"@.len() == 10);
    assert("none"@.len() == 4);
    assert("app bundle"@[0] != "user cache"@[0]);
}

/// A version of the agent, or of its protocol, that is not that of the
/// application is flagged, and no other is.
pub proof fn law_a_mismatch_is_flagged(app: AppInfo)
    ensures
        app.agent_version is None ==> app.agent_text() == "not connected"@,
        app.agent_version matches Some(version) ==> shows(app.agent_text(), "v"@ + version@),
        app.agent_version matches Some(version) ==> (app.agent_text().last() == 'I' <==> version@
            != app.gui_version@),
        app.protocol_agent matches Some(p) ==> (app.protocol_text().last() == 'h' <==> p
            != app.protocol_gui),
        app.protocol_agent matches Some(p) ==> shows(
            app.protocol_text(),
            "GUI "@ + decimal(app.protocol_gui as nat) + " / agent "@ + decimal(p as nat),
        ),
{
    if let Some(version) = app.agent_version {
        let same = " (connected)"@;
        let other = " (connected) ⚠️ version mismatch with GUI"@;
        reveal_strlit(" (connected)");
        reveal_strlit(" (connected) ⚠️ version mismatch with GUI");
        assert(same.last() == ')');
        assert(other.last() == 'I');
        lemma_shown_itself("v"@ + version@);
        lemma_shown_before("v"@ + version@, same, "v"@ + version@);
        lemma_shown_before("v"@ + version@, other, "v"@ + version@);
    }
    if let Some(p) = app.protocol_agent {
        let part = "GUI "@ + decimal(app.protocol_gui as nat) + " / agent "@ + decimal(p as nat);
        reveal_strlit(" ⚠️ mismatch");
        assert(" ⚠️ mismatch"@.last() == 'h');
        lemma_decimal_ends_in_a_digit(p as nat);
        assert(part.last() == decimal(p as nat).last());
        lemma_shown_itself(part);
        lemma_shown_before(part, " ⚠️ mismatch"@, part);
    }
}

/// The transports of a device are listed one by one: each that it announced and
/// no other.
pub proof fn law_announced_transports_are_listed(t: DeviceTransports)
    ensures
        given(transport_parts(t)).contains("USB"@) <==> t.usb,
        given(transport_parts(t)).contains("eQuad"@) <==> t.equad,
        given(transport_parts(t)).contains("BTLE"@) <==> t.btle,
        given(transport_parts(t)).contains("Bluetooth"@) <==> t.bluetooth,
        transports_text(t) == "none"@ <== !t.usb && !t.equad && !t.btle && !t.bluetooth,
{
    reveal_strlit("USB");
    reveal_strlit("eQuad");
    reveal_strlit("BTLE");
    reveal_strlit("Bluetooth");
    assert("USB"@.len() == 3 && "eQuad"@.len() == 5 && "BTLE"@.len() == 4 && "Bluetooth"@.len()
        == 9);
    let none = Seq::<Option<Seq<char>>>::empty();
    let one = none.push(text_if(t.usb, "USB"@));
    let two = one.push(text_if(t.equad, "eQuad"@));
    let three = two.push(text_if(t.btle, "BTLE"@));
    let four = three.push(text_if(t.bluetooth, "Bluetooth"@));
    lemma_given_one_more(none, text_if(t.usb, "USB"@));
    lemma_given_one_more(one, text_if(t.equad, "eQuad"@));
    lemma_given_one_more(two, text_if(t.btle, "BTLE"@));
    lemma_given_one_more(three, text_if(t.bluetooth, "Bluetooth"@));
    assert(transport_parts(t) =~= four);
    if !t.usb && !t.equad && !t.btle && !t.bluetooth {
        lemma_given_push(none, None);
        lemma_given_push(one, None);
        lemma_given_push(two, None);
        lemma_given_push(three, None);
    }
}

proof fn lemma_given_one_more(parts: Seq<Option<Seq<char>>>, part: Option<Seq<char>>)
    ensures
        forall|text: Seq<char>| #[trigger]
            given(parts.push(part)).contains(text) <==> given(parts).contains(text) || part
                == Some(text),
{
    lemma_given_push(parts, part);
    let before = given(parts);
    let after = given(parts.push(part));
    assert forall|text: Seq<char>| #[trigger] after.contains(text) <==> before.contains(text)
        || part == Some(text) by {
        if before.contains(text) {
            let i = before.index_of(text);
            assert(after[i] == text);
        }
        if part == Some(text) {
            assert(after[before.len() as int] == text);
        }
        if after.contains(text) {
            let i = after.index_of(text);
            assert(i < before.len() ==> before[i] == text);
        }
    }
}

}
