use rp_scale::print::printer::PrinterKind;
use rp_scale::service::monitor::{PrinterDeviceConfig, normalize_device_path};

#[test]
fn device_paths_are_trimmed_and_blank_ones_dropped() {
    assert_eq!(normalize_device_path(Some(" /dev/usb/lp0 ".to_string())), Some("/dev/usb/lp0".to_string()));
    assert_eq!(normalize_device_path(Some("  ".to_string())), None);
    assert_eq!(normalize_device_path(None), None);

    let devices = PrinterDeviceConfig::new(None, Some(" /dev/godex ".to_string()));
    assert_eq!(devices.device_path(PrinterKind::Godex), Some("/dev/godex".to_string()));
    assert_eq!(devices.device_path(PrinterKind::Zebra), None);
}
