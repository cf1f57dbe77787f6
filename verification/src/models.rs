//! Plain data carried between the device-facing layers.

use vstd::prelude::*;

verus! {

/// One discovered LED display device.
#[derive(Debug, Clone, PartialEq, Eq)]
pub struct DivoomDevice {
    /// Display name reported by the device.
    pub name: String,
    /// Hardware address, when reported.
    pub mac_address: Option<String>,
    /// Marketing name of the hardware model.
    pub device_type: String,
    /// Address on the local network, when reported.
    pub ip_address: Option<String>,
    /// Signal strength, when reported.
    pub signal_strength: Option<i32>,
    /// Whether the device is currently reachable.
    pub is_connected: bool,
    /// Cloud identifier, when reported.
    pub device_id: Option<u64>,
}

/// Network facts reported by a device.
#[derive(Debug, Clone, PartialEq, Eq)]
pub struct NetworkSettings {
    /// Network name.
    pub ssid: Option<String>,
    /// Address on the local network.
    pub ip_address: Option<String>,
    /// Hardware address.
    pub mac_address: Option<String>,
    /// Signal strength.
    pub signal_strength: Option<i32>,
}

/// Device-side display settings.
#[derive(Debug, Clone, PartialEq, Eq)]
pub struct DeviceSettings {
    /// Screen brightness.
    pub brightness: Option<u8>,
    /// Screen rotation flag.
    pub rotation_flag: Option<u8>,
    /// Date format code.
    pub date_format: Option<String>,
    /// 24-hour clock flag.
    pub time24_flag: Option<u8>,
    /// Temperature unit flag.
    pub temperature_mode: Option<u8>,
    /// Mirror flag.
    pub mirror_flag: Option<u8>,
    /// Screen on/off flag.
    pub light_switch: Option<u8>,
}

/// One text element to draw on a screen.
#[derive(Debug, Clone, PartialEq, Eq)]
pub struct TextConfig {
    /// Element identifier.
    pub id: u8,
    /// The text itself.
    pub content: String,
    /// Horizontal position.
    pub x: u8,
    /// Vertical position.
    pub y: u8,
    /// Font code; a fixed default applies when absent.
    pub font: Option<u8>,
    /// Color as "r,g,b"; white when absent.
    pub color: Option<String>,
    /// Alignment code; left when absent.
    pub alignment: Option<u8>,
    /// Text width; a fixed default applies when absent.
    pub text_width: Option<u8>,
}

/// One LCD panel's clock assignment.
#[derive(Debug, Clone, PartialEq, Eq)]
pub struct LcdInfo {
    /// The clock shown on the panel.
    pub lcd_clock_id: u64,
}

/// One independence group of LCD panels.
#[derive(Debug, Clone, PartialEq, Eq)]
pub struct LcdIndependenceInfo {
    /// The group's identifier.
    pub lcd_independence: u64,
    /// The panels in the group.
    pub lcd_list: Vec<LcdInfo>,
}

/// The LCD layout reported for one device.
#[derive(Debug, Clone, PartialEq, Eq)]
pub struct LcdInfoResponse {
    /// The device's cloud identifier.
    pub device_id: u64,
    /// The device's independence groups.
    pub independence_list: Vec<LcdIndependenceInfo>,
}

} // verus!
