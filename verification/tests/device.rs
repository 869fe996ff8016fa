use disk_image::device::{device_path_from_bytes, device_size, is_optical_device, DeviceSizeError};

#[test]
fn device_path_from_nul_terminated_bytes() {
    assert_eq!(device_path_from_bytes(b"/dev/sdb\0"), Some("/dev/sdb".to_string()));
}

#[test]
fn device_path_needs_terminating_nul() {
    assert_eq!(device_path_from_bytes(b"/dev/sdb"), None);
    assert_eq!(device_path_from_bytes(b""), None);
}

#[test]
fn device_path_rejects_interior_nul() {
    assert_eq!(device_path_from_bytes(b"/dev/\0sdb\0"), None);
}

#[test]
fn device_path_rejects_invalid_utf8() {
    assert_eq!(device_path_from_bytes(b"/dev/\xff\0"), None);
}

#[test]
fn device_path_accepts_utf8() {
    assert_eq!(device_path_from_bytes("/dev/disk/by-label/Daten-ä\0".as_bytes()), Some("/dev/disk/by-label/Daten-ä".to_string()));
}

#[test]
fn device_path_of_only_nul_is_empty() {
    assert_eq!(device_path_from_bytes(b"\0"), Some(String::new()));
}

#[test]
fn optical_devices() {
    assert!(is_optical_device("/dev/sr0"));
    assert!(is_optical_device("/dev/sr12"));
    assert!(!is_optical_device("/dev/sda"));
    assert!(!is_optical_device("sr0"));
}

#[test]
fn device_size_on_success() {
    assert_eq!(device_size(Ok(0), 4096), Ok(4096));
}

#[test]
fn device_size_on_refused_request() {
    assert_eq!(device_size(Err(25), 0), Err(DeviceSizeError::NotABlockDevice));
    assert_eq!(device_size(Ok(1), 4096), Err(DeviceSizeError::NotABlockDevice));
}
