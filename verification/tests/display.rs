use flowmon::device::{select_devices, should_monitor, Device};
use flowmon::display::{device_line, format_addresses, is_debug, same_text};
use flowmon::endpoint::IpAddress;

fn display_device(name: &str, is_loopback: bool, is_up: bool, is_running: bool) -> Device {
    Device {
        name: String::from(name),
        addresses: vec![IpAddress::V4(0xc0a8_0101)],
        is_loopback,
        is_up,
        is_running,
    }
}

#[test]
fn debug_switch_is_on_for_one_and_true() {
    assert!(is_debug("1"));
    assert!(is_debug("true"));
    assert!(!is_debug(""));
    assert!(!is_debug("0"));
    assert!(!is_debug("TRUE"));
    assert!(!is_debug("true "));
    assert!(!is_debug("11"));
    assert!(!is_debug("yes"));
}

#[test]
fn texts_are_compared_in_full() {
    assert!(same_text("any", "any"));
    assert!(!same_text("any", "an"));
    assert!(!same_text("any", "Any"));
    assert!(same_text("", ""));
}

#[test]
fn addresses_are_each_followed_by_a_space() {
    let addresses = vec![String::from("192.168.1.1"), String::from("fe80::1")];
    assert_eq!(format_addresses(&addresses), "192.168.1.1 fe80::1 ");
    assert_eq!(format_addresses(&vec![String::from("10.0.0.1")]), "10.0.0.1 ");
    assert_eq!(format_addresses(&Vec::new()), "");
}

#[test]
fn device_line_lists_name_and_addresses() {
    let addresses = vec![String::from("192.168.1.1"), String::from("fe80::1")];
    assert_eq!(device_line("eth0", &addresses), "\t- eth0: 192.168.1.1 fe80::1 ");
    assert_eq!(device_line("wlan0", &Vec::new()), "\t- wlan0: ");
}

#[test]
fn only_running_non_loopback_devices_are_monitored() {
    assert!(should_monitor(&display_device("eth0", false, true, true), &None));
    assert!(!should_monitor(&display_device("lo", true, true, true), &None));
    assert!(!should_monitor(&display_device("eth0", false, false, true), &None));
    assert!(!should_monitor(&display_device("eth0", false, true, false), &None));
    assert!(!should_monitor(&display_device("any", false, true, true), &None));
    assert!(!should_monitor(&display_device("any", false, true, true), &Some(String::from("any"))));
}

#[test]
fn wanted_name_restricts_the_choice() {
    let wanted = Some(String::from("eth1"));
    assert!(should_monitor(&display_device("eth1", false, true, true), &wanted));
    assert!(!should_monitor(&display_device("eth0", false, true, true), &wanted));
    assert!(!should_monitor(&display_device("eth1", false, false, true), &wanted));
}

#[test]
fn selected_devices_keep_their_order() {
    let devices = vec![
        display_device("lo", true, true, true),
        display_device("eth0", false, true, true),
        display_device("any", false, true, true),
        display_device("eth1", false, true, false),
        display_device("wlan0", false, true, true),
    ];
    let names: Vec<String> = select_devices(devices, &None).into_iter().map(|device| device.name).collect();
    assert_eq!(names, vec![String::from("eth0"), String::from("wlan0")]);
    let devices = vec![display_device("eth0", false, true, true), display_device("wlan0", false, true, true)];
    let chosen = select_devices(devices, &Some(String::from("wlan0")));
    assert_eq!(chosen, vec![display_device("wlan0", false, true, true)]);
    assert!(select_devices(Vec::new(), &None).is_empty());
}
