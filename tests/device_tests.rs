use plume::devices::{ConnectionKind, Device, DeviceSet, PLACEHOLDER_DEVICE_ID};
use plume::plist_value::{PlistEntry, PlistValue};
use plume::sanitize::strip_invalid_chars;

fn dev(id: u32, udid: &str, kind: ConnectionKind) -> Device {
    Device::new(id, udid.to_string(), kind, Some(format!("Phone {}", id)))
}

#[test]
fn strip_invalid_chars_removes_forbidden() {
    assert_eq!(strip_invalid_chars("My/App:Name.ipa"), "MyAppNameipa");
    assert_eq!(strip_invalid_chars("a\\b*c?d\"e<f>g|h"), "abcdefgh");
    assert_eq!(strip_invalid_chars("Caf\u{e9} \u{1F600}ok\t\n\u{7f}"), "Caf ok");
    assert_eq!(strip_invalid_chars(""), "");
}

#[test]
fn unresolved_name_is_empty() {
    let d = Device::new(3, "UDID".to_string(), ConnectionKind::Usb, None);
    assert_eq!(d.name, "");
    assert_eq!(d.udid, "UDID");
    assert_eq!(d.label(), "[USB] ");
}

#[test]
fn device_labels() {
    assert_eq!(dev(1, "U", ConnectionKind::Usb).label(), "[USB] Phone 1");
    assert_eq!(dev(2, "U", ConnectionKind::Network).label(), "[WiFi] Phone 2");
    assert_eq!(dev(3, "U", ConnectionKind::Unknown).label(), "[Unknown] Phone 3");
}

#[test]
fn duplicate_arrival_listed_once() {
    let mut set = DeviceSet::new();
    set.connect(dev(7, "AAA", ConnectionKind::Usb));
    set.connect(dev(7, "AAA", ConnectionKind::Usb));
    assert_eq!(set.devices().len(), 1);
    assert_eq!(set.selected_id(), Some(7));
}

#[test]
fn unknown_departure_is_noop() {
    let mut set = DeviceSet::new();
    set.connect(dev(1, "AAA", ConnectionKind::Usb));
    set.disconnect(42);
    assert_eq!(set.devices().len(), 1);
    assert_eq!(set.selected_id(), Some(1));
}

#[test]
fn departure_of_selected_prefers_usb() {
    let mut set = DeviceSet::new();
    set.connect(dev(1, "AAA", ConnectionKind::Network));
    set.connect(dev(2, "BBB", ConnectionKind::Network));
    set.connect(dev(3, "CCC", ConnectionKind::Usb));
    assert_eq!(set.selected_id(), Some(1));
    set.disconnect(1);
    assert_eq!(set.selected_id(), Some(3));
    assert_eq!(set.devices().len(), 2);
    set.disconnect(3);
    assert_eq!(set.selected_id(), Some(2));
    set.disconnect(2);
    assert_eq!(set.selected_id(), None);
    assert!(set.selected_device().is_none());
}

#[test]
fn usb_link_takes_over_selection_of_same_phone() {
    let mut set = DeviceSet::new();
    set.connect(dev(1, "AAA", ConnectionKind::Network));
    set.connect(dev(2, "AAA", ConnectionKind::Usb));
    assert_eq!(set.devices().len(), 2);
    assert_eq!(set.selected_id(), Some(2));
    assert_eq!(set.selected_device().unwrap().connection, ConnectionKind::Usb);
    set.connect(dev(3, "BBB", ConnectionKind::Usb));
    assert_eq!(set.selected_id(), Some(2));
}

#[test]
fn placeholder_is_not_selected_on_arrival() {
    let mut set = DeviceSet::new();
    set.connect(dev(PLACEHOLDER_DEVICE_ID, "PH", ConnectionKind::Unknown));
    assert_eq!(set.selected_id(), None);
    set.connect(dev(5, "AAA", ConnectionKind::Usb));
    assert_eq!(set.selected_id(), Some(5));
    assert_eq!(set.devices().len(), 2);
}

#[test]
fn device_name_read_from_info() {
    let info = PlistValue::Dictionary(vec![
        PlistEntry { key: "ProductType".to_string(), value: PlistValue::String("iPhone15,2".to_string()) },
        PlistEntry { key: "DeviceName".to_string(), value: PlistValue::String("Jane's iPhone".to_string()) },
    ]);
    assert_eq!(plume::devices::name_from_device_info(&info), "Jane's iPhone");
    let nameless = PlistValue::Dictionary(vec![PlistEntry {
        key: "DeviceName".to_string(),
        value: PlistValue::Integer(3),
    }]);
    assert_eq!(plume::devices::name_from_device_info(&nameless), "");
    assert_eq!(plume::devices::name_from_device_info(&PlistValue::Other), "");
}

#[test]
fn select_by_label_picks_listed_device() {
    let mut set = DeviceSet::new();
    set.connect(dev(1, "AAA", ConnectionKind::Usb));
    set.connect(dev(2, "BBB", ConnectionKind::Network));
    set.select_by_label("[WiFi] Phone 2");
    assert_eq!(set.selected_id(), Some(2));
    set.select_by_label("[USB] Nobody");
    assert_eq!(set.selected_id(), None);
    assert_eq!(set.devices().len(), 2);
}
