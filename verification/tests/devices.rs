use mirror_sessions::device::{
    connect_reply_ok, device_from_adb, devices_from_adb, disconnect_reply_ok, AdbDeviceInfo,
    ConnectionType, DeviceStatus,
};

#[test]
fn connect_replies_are_judged_by_content() {
    assert!(connect_reply_ok("connected to 192.168.1.5:5555"));
    assert!(connect_reply_ok("already connected to 192.168.1.5:5555"));
    assert!(!connect_reply_ok("failed to authenticate to 192.168.1.5:5555"));
    assert!(!connect_reply_ok(""));
}

#[test]
fn disconnect_replies_are_judged_by_content() {
    assert!(disconnect_reply_ok("disconnected 192.168.1.5:5555"));
    assert!(!disconnect_reply_ok("error: no such device"));
}

#[test]
fn wireless_serial_is_classified_with_address() {
    let device = device_from_adb(AdbDeviceInfo {
        serial: "192.168.1.5:5555".to_string(),
        state: "device".to_string(),
        model: Some("Pixel 7".to_string()),
    });
    assert_eq!(device.id, "192.168.1.5:5555");
    assert_eq!(device.connection_type, ConnectionType::Wireless);
    assert_eq!(device.status, DeviceStatus::Connected);
    assert_eq!(device.ip_address, Some("192.168.1.5".to_string()));
    assert_eq!(device.model, "Pixel 7");
    assert_eq!(device.name, "Pixel 7");
}

#[test]
fn usb_serial_without_model_is_unknown() {
    let device = device_from_adb(AdbDeviceInfo {
        serial: "ABC123".to_string(),
        state: "unauthorized".to_string(),
        model: None,
    });
    assert_eq!(device.id, "ABC123");
    assert_eq!(device.connection_type, ConnectionType::USB);
    assert_eq!(device.status, DeviceStatus::Unauthorized);
    assert_eq!(device.ip_address, None);
    assert_eq!(device.model, "Unknown");
    assert_eq!(device.name, "Unknown Device");
}

#[test]
fn state_words_map_to_statuses() {
    let status_of = |state: &str| {
        device_from_adb(AdbDeviceInfo {
            serial: "X".to_string(),
            state: state.to_string(),
            model: None,
        })
        .status
    };
    assert_eq!(status_of("device"), DeviceStatus::Connected);
    assert_eq!(status_of("unauthorized"), DeviceStatus::Unauthorized);
    assert_eq!(status_of("offline"), DeviceStatus::Offline);
    assert_eq!(status_of("bootloader"), DeviceStatus::Disconnected);
}

#[test]
fn a_literally_unknown_model_gets_the_placeholder_name() {
    let device = device_from_adb(AdbDeviceInfo {
        serial: "X".to_string(),
        state: "device".to_string(),
        model: Some("Unknown".to_string()),
    });
    assert_eq!(device.model, "Unknown");
    assert_eq!(device.name, "Unknown Device");
}

#[test]
fn rows_are_classified_in_order() {
    let devices = devices_from_adb(vec![
        AdbDeviceInfo {
            serial: "usb-1".to_string(),
            state: "device".to_string(),
            model: Some("Tab".to_string()),
        },
        AdbDeviceInfo {
            serial: "10.0.0.2:5555".to_string(),
            state: "offline".to_string(),
            model: None,
        },
    ]);
    assert_eq!(devices.len(), 2);
    assert_eq!(devices[0].id, "usb-1");
    assert_eq!(devices[0].name, "Tab");
    assert_eq!(devices[1].id, "10.0.0.2:5555");
    assert_eq!(devices[1].connection_type, ConnectionType::Wireless);
    assert_eq!(devices[1].ip_address, Some("10.0.0.2".to_string()));
}
