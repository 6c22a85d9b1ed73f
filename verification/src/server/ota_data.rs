use vstd::prelude::*;

verus! {

/// HTTP header carrying the device id.
pub const KEY_DEVICE_ID: &'static str = "Device-Id";

/// HTTP header carrying the client id.
pub const KEY_CLIENT_ID: &'static str = "Client-Id";

/// HTTP header carrying the user agent.
pub const KEY_USER_AGENT: &'static str = "User-Agent";

/// What a device reports when it asks for an over-the-air update.
#[derive(Debug)]
pub struct OtaParam {
    pub version: Option<u32>,
    pub language: Option<String>,
    /// Flash size of the device.
    pub flash_size: Option<u64>,
    pub minimum_free_heap_size: Option<u64>,
    /// MAC address (the same as the device-id HTTP header).
    pub mac_address: Option<String>,
    /// Chip model, e.g. esp32s3.
    pub chip_model_name: Option<String>,
    /// PSRAM size of the device.
    pub psram_size: Option<u64>,
    /// Client id (the same as the client-id HTTP header).
    pub uuid: Option<String>,
    pub application: Application,
    /// Partition table, used to check there is room to download the firmware.
    pub partition_table: Option<Vec<Partition>>,
    pub ota: Option<Ota>,
    pub board: Board,
}

/// The firmware the device currently runs.
#[derive(Debug)]
pub struct Application {
    pub name: Option<String>,
    /// Current firmware version.
    pub version: String,
    pub compile_time: Option<String>,
    pub idf_version: Option<String>,
    /// Hash that checks the integrity of the firmware image.
    pub elf_sha256: String,
}

/// One entry of the device's partition table.
#[derive(Debug)]
pub struct Partition {
    pub label: String,
    pub mtype: u32,
    pub subtype: u32,
    pub address: u64,
    pub size: u64,
}

/// The OTA partition the device booted from.
#[derive(Debug)]
pub struct Ota {
    pub label: String,
}

/// Board type, version and the environment it runs in.
#[derive(Debug)]
pub struct Board {
    /// Board type.
    pub mtype: String,
    /// Board SKU (the leading part of the user agent).
    pub name: Option<String>,
    /// Wi-Fi network the device joined.
    pub ssid: Option<String>,
    /// Wi-Fi signal strength.
    pub rssi: Option<i32>,
    pub channel: Option<i32>,
    pub ip: Option<String>,
    pub mac: Option<String>,
}

/// The server's answer to an OTA check.
#[derive(Debug, Default)]
pub struct OtaResult {
    pub activation: Option<Activation>,
    pub mqtt: Option<Mqtt>,
    pub websocket: Websocket,
    pub server_time: ServerTime,
    pub firmware: Option<Firmware>,
}

/// The device needs activation.
#[derive(Debug, Default)]
pub struct Activation {
    /// Activation code.
    pub code: String,
    /// Message shown on the screen.
    pub message: String,
    pub challenge: String,
}

/// MQTT server configuration.
#[derive(Debug, Default)]
pub struct Mqtt {
    pub endpoint: String,
    pub client_id: String,
    pub username: String,
    pub password: String,
    pub publish_topic: String,
}

/// WebSocket server configuration.
#[derive(Debug, Default)]
pub struct Websocket {
    pub url: String,
    pub token: String,
}

/// Server time, for the device to synchronize its clock.
#[derive(Debug, Default)]
pub struct ServerTime {
    /// Current timestamp.
    pub timestamp: i64,
    /// Server time zone.
    pub timezone: String,
    /// Offset of the server time zone.
    pub timezone_offset: i32,
}

/// The newest firmware available.
#[derive(Debug, Default)]
pub struct Firmware {
    /// Firmware version.
    pub version: String,
    /// Download link.
    pub url: Option<String>,
}

} // verus!
