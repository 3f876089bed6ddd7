use gflick::hid_listing::{sorted_devices, LOGITECH_VENDOR_ID};
use gflick::probe::HidCollection;

fn hid(vendor_id: u16, product_id: u16, interface_number: i32, usage_page: u16, usage: u16, path: &[u8]) -> HidCollection {
    HidCollection {
        vendor_id,
        product_id,
        interface_number,
        serial_number: None,
        usage_page,
        usage,
        path: path.to_vec(),
    }
}

fn key(d: &HidCollection) -> (u16, u16, i32, u16, u16, Vec<u8>) {
    (d.vendor_id, d.product_id, d.interface_number, d.usage_page, d.usage, d.path.clone())
}

#[test]
fn listing_orders_by_usb_ids_interface_usage_and_path() {
    let devices = vec![
        hid(LOGITECH_VENDOR_ID, 0xc547, 2, 0xff00, 2, b"b"),
        hid(LOGITECH_VENDOR_ID, 0xc09b, 1, 0x0001, 2, b"a"),
        hid(LOGITECH_VENDOR_ID, 0xc547, 2, 0xff00, 1, b"z"),
        hid(LOGITECH_VENDOR_ID, 0xc547, 2, 0xff00, 2, b"a"),
        hid(LOGITECH_VENDOR_ID, 0xc547, -1, 0xff00, 2, b"a"),
        hid(LOGITECH_VENDOR_ID, 0xc547, 2, 0xff00, 2, b"ab"),
    ];
    let listed = sorted_devices(devices, false);
    let keys: Vec<_> = listed.iter().map(key).collect();
    assert_eq!(
        keys,
        vec![
            (LOGITECH_VENDOR_ID, 0xc09b, 1, 0x0001, 2, b"a".to_vec()),
            (LOGITECH_VENDOR_ID, 0xc547, -1, 0xff00, 2, b"a".to_vec()),
            (LOGITECH_VENDOR_ID, 0xc547, 2, 0xff00, 1, b"z".to_vec()),
            (LOGITECH_VENDOR_ID, 0xc547, 2, 0xff00, 2, b"a".to_vec()),
            (LOGITECH_VENDOR_ID, 0xc547, 2, 0xff00, 2, b"ab".to_vec()),
            (LOGITECH_VENDOR_ID, 0xc547, 2, 0xff00, 2, b"b".to_vec()),
        ]
    );
}

#[test]
fn other_vendors_are_listed_only_on_request() {
    let devices = vec![hid(0x1234, 1, 0, 1, 1, b"x"), hid(LOGITECH_VENDOR_ID, 1, 0, 1, 1, b"y")];
    let logitech = sorted_devices(devices.clone(), false);
    assert_eq!(logitech.len(), 1);
    assert_eq!(logitech[0].vendor_id, LOGITECH_VENDOR_ID);
    let every = sorted_devices(devices, true);
    assert_eq!(every.len(), 2);
    assert_eq!(every[0].vendor_id, LOGITECH_VENDOR_ID);
    assert_eq!(every[1].vendor_id, 0x1234);
}
