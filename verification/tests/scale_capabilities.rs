use rp_scale::scale::capabilities::normalize_unit;
use rp_scale::scale::{ScaleCapabilities, ScaleTransport};

#[test]
fn serial_capabilities_describe_current_driver() {
    let caps = ScaleCapabilities::serial("/dev/ttyUSB0", 9600, "");

    assert_eq!(caps.driver_id, "serial-scale");
    assert_eq!(caps.display_name, "Serial Scale");
    assert_eq!(caps.transport, ScaleTransport::Serial);
    assert_eq!(caps.transport.as_str(), "serial");
    assert!(caps.realtime_weight);
    assert!(caps.stability_flag);
    assert!(caps.raw_diagnostics);
    assert_eq!(caps.default_unit, "kg");
    assert_eq!(caps.connection, "/dev/ttyUSB0@9600");
}

#[test]
fn serial_connection_trims_port_and_prints_baud() {
    let caps = ScaleCapabilities::serial("  COM3 ", 0, " LB ");

    assert_eq!(caps.connection, "COM3@0");
    assert_eq!(caps.default_unit, "lb");
    assert_eq!(ScaleCapabilities::serial("p", 4294967295, "g").connection, "p@4294967295");
}

#[test]
fn transport_names() {
    assert_eq!(ScaleTransport::Usb.as_str(), "usb");
    assert_eq!(ScaleTransport::Wifi.as_str(), "wifi");
    assert_eq!(ScaleTransport::Bluetooth.as_str(), "bluetooth");
    assert_eq!(ScaleTransport::VendorSdk.as_str(), "vendor_sdk");
    assert_eq!(ScaleTransport::Simulated.as_str(), "simulated");
}

#[test]
fn normalizes_units() {
    assert_eq!(normalize_unit(" KG "), "kg");
    assert_eq!(normalize_unit("\t"), "kg");
    assert_eq!(normalize_unit("Oz"), "oz");
}
