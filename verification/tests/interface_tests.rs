use w4113::interface::{
    get_interface_by_id, get_interface_by_name, hash, interfaces_from_devices, key_report, list_interfaces,
    list_interfaces_id, list_interfaces_name, DeviceInfo, Interface, Key, Mod, ReportAction,
};

#[test]
fn keys_are_read_from_their_codes() {
    assert_eq!(Key::from(4), Key::A);
    assert_eq!(Key::from(29), Key::Z);
    assert_eq!(Key::from(30), Key::Num1);
    assert_eq!(Key::from(39), Key::Num0);
    assert_eq!(Key::from(44), Key::Space);
    assert_eq!(Key::from(69), Key::F12);
    assert_eq!(Key::from(0), Key::Unknown);
    assert_eq!(Key::from(3), Key::Unknown);
    assert_eq!(Key::from(70), Key::Unknown);
    assert_eq!(Key::from(255), Key::Unknown);
}

#[test]
fn every_code_of_a_key_reads_back() {
    for code in 0u8..=255 {
        let k = Key::from(code);
        if (4..=69).contains(&code) {
            assert_eq!(k.code(), code);
        } else {
            assert_eq!(k, Key::Unknown);
        }
        assert_eq!(Key::from(k.code()), k);
    }
}

#[test]
fn keys_are_shown_by_name() {
    assert_eq!(Key::A.to_string(), "A");
    assert_eq!(Key::Num5.to_string(), "Num5");
    assert_eq!(Key::NonUsHash.to_string(), "NonUsHash");
    assert_eq!(Key::Unknown.to_string(), "Unknown");
    assert_eq!(Mod::RightSuper.to_string(), "RightSuper");
    assert_eq!(Mod::RightSuper.mask(), 128);
    assert_eq!(Mod::LeftAlt.mask(), 4);
}

#[test]
fn the_hash_multiplies_by_31_and_wraps() {
    assert_eq!(hash(String::new()), 0);
    assert_eq!(hash("a".to_string()), 97);
    assert_eq!(hash("ab".to_string()), 97 * 31 + 98);
    let long = "Apple Inc.Magic KeyboardF0T123";
    let mut expected: u32 = 0;
    for c in long.chars() {
        expected = expected.wrapping_mul(31).wrapping_add(c as u32);
    }
    assert_eq!(hash(long.to_string()), expected);
}

fn device(m: &str, p: &str, s: &str) -> DeviceInfo {
    DeviceInfo { manufacturer: m.to_string(), product: p.to_string(), serial: s.to_string() }
}

#[test]
fn interfaces_are_identified_by_their_strings() {
    let i = Interface::new("Acme".to_string(), "Pad".to_string(), "42".to_string());
    assert_eq!(i.id(), hash("AcmePad42".to_string()));
    assert_eq!(i.manufacturer(), "Acme");
    assert_eq!(i.product(), "Pad");
    assert_eq!(i.serial(), "42");
    assert_eq!(i.name(), "Acme:Pad");
    assert_eq!(i.label(), format!("({}) Acme:Pad", i.id()));
    assert_eq!(i.to_string(), format!("({}) Acme: Pad", i.id()));
    let j = Interface::new("Acme".to_string(), "Pad".to_string(), "43".to_string());
    assert!(i.eq(&i.clone()));
    assert!(!i.eq(&j));
}

#[test]
fn devices_with_the_same_strings_share_an_interface() {
    let devices = vec![
        device("Acme", "Pad", "1"),
        device("Unknown", "Mouse", "Unknown"),
        device("Acme", "Pad", "1"),
        device("Acme", "Pad", "2"),
    ];
    let (interfaces, owners) = interfaces_from_devices(&devices);
    assert_eq!(interfaces.len(), 3);
    assert_eq!(owners, vec![0, 1, 0, 2]);
    assert_eq!(list_interfaces_name(&interfaces), vec!["Acme:Pad", "Unknown:Mouse", "Acme:Pad"]);
    let ids = list_interfaces_id(&interfaces);
    assert_eq!(ids[1], hash("UnknownMouseUnknown".to_string()));
    assert_eq!(list_interfaces(&interfaces)[1], format!("({}) Unknown:Mouse", ids[1]));
    let by_id = get_interface_by_id(interfaces.clone(), ids[2]).unwrap();
    assert_eq!(by_id.serial(), "2");
    let mut absent = 0u32;
    while ids.contains(&absent) {
        absent += 1;
    }
    assert!(get_interface_by_id(interfaces.clone(), absent).is_none());
    let by_name = get_interface_by_name(interfaces.clone(), "Acme:Pad".to_string()).unwrap();
    assert_eq!(by_name.serial(), "1");
    assert!(get_interface_by_name(interfaces, "Acme: Pad".to_string()).is_none());
}

fn report(slots: [u8; 5]) -> [u8; 8] {
    [1, 0, 0, slots[0], slots[1], slots[2], slots[3], slots[4]]
}

#[test]
fn a_report_that_is_not_a_keyboard_report_stops_the_reader() {
    let mut keys = vec![4u8];
    let r = key_report(&mut keys, &[2, 0, 0, 4, 0, 0, 0, 0], true, true);
    assert_eq!(r, ReportAction::Stop);
    assert_eq!(keys, vec![4]);
}

#[test]
fn held_keys_follow_the_reports() {
    let mut keys: Vec<u8> = Vec::new();
    let r = key_report(&mut keys, &report([4, 5, 0, 0, 0]), true, true);
    assert_eq!(r, ReportAction::Keys { released: vec![], pressed: vec![4, 5] });
    assert_eq!(keys, vec![4, 5]);
    let r = key_report(&mut keys, &report([5, 6, 0, 0, 0]), true, true);
    assert_eq!(r, ReportAction::Keys { released: vec![4], pressed: vec![6] });
    assert_eq!(keys, vec![5, 6]);
    let r = key_report(&mut keys, &report([0, 0, 0, 0, 0]), true, true);
    assert_eq!(r, ReportAction::Keys { released: vec![5, 6], pressed: vec![] });
    assert!(keys.is_empty());
    let r = key_report(&mut keys, &report([0, 0, 0, 0, 0]), true, true);
    assert_eq!(r, ReportAction::Keys { released: vec![], pressed: vec![] });
}

#[test]
fn keys_change_only_where_a_handler_is_set() {
    let mut keys = vec![4u8];
    let r = key_report(&mut keys, &report([7, 0, 0, 0, 0]), false, true);
    assert_eq!(r, ReportAction::Keys { released: vec![], pressed: vec![7] });
    assert_eq!(keys, vec![4, 7]);
    let r = key_report(&mut keys, &report([0, 0, 0, 0, 0]), true, false);
    assert_eq!(r, ReportAction::Keys { released: vec![4, 7], pressed: vec![] });
    assert!(keys.is_empty());
}

#[test]
fn held_keys_are_the_keys_of_the_last_report() {
    let reports = [
        [9u8, 0, 4, 0, 0],
        [4, 9, 10, 11, 12],
        [12, 0, 0, 0, 13],
        [0, 0, 0, 0, 0],
        [30, 31, 32, 33, 34],
    ];
    let mut keys: Vec<u8> = Vec::new();
    for slots in reports.iter() {
        let _ = key_report(&mut keys, &report(*slots), true, true);
        let mut held = keys.clone();
        held.sort();
        let mut shown: Vec<u8> = slots.iter().copied().filter(|k| *k > 0).collect();
        shown.sort();
        assert_eq!(held, shown);
        assert!(keys.len() <= 5);
    }
}
