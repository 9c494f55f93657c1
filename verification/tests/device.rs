use netmd::device::{select_device, supported_device, supported_devices, DeviceFlags, DeviceSelector};
use netmd::error::NetMDError;

#[test]
fn known_models_are_supported() {
    let all = supported_devices();
    assert!(!all.is_empty());
    let first = all[0];
    let found = supported_device(first.vendor_id, first.product_id).unwrap();
    assert_eq!(found.name, first.name);
    assert!(supported_device(0x1234, 0x5678).is_none());
}

#[test]
fn device_flag_constructors() {
    assert_eq!(DeviceFlags::empty(), DeviceFlags { native_mono_upload: false, native_lp_encoding: false });
    assert!(DeviceFlags::native_mono_upload().native_mono_upload);
    assert!(!DeviceFlags::native_mono_upload().native_lp_encoding);
}

#[test]
fn selection_picks_the_single_match() {
    let connected = [(0x054c, 0x0075), (0x04dd, 0x9013)];
    assert_eq!(select_device(&connected, Some(DeviceSelector::new(0x04dd, 0x9013))), Ok(1));
    assert_eq!(select_device(&connected[..1], None), Ok(0));
    assert_eq!(select_device(&connected, None), Err(NetMDError::MultipleSupportedDevices));
    assert_eq!(select_device(&[], None), Err(NetMDError::DeviceNotFound));
    assert_eq!(
        select_device(&connected, Some(DeviceSelector::new(1, 2))),
        Err(NetMDError::DeviceNotFoundById { vendor_id: 1, product_id: 2 })
    );
}
