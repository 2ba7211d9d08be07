use nscan::addr::{Ipv4, MacAddr};
use nscan::iface::{select, select_index, NetworkInterface, SelectError};

fn interfaces() -> Vec<NetworkInterface> {
    vec![
        NetworkInterface { index: 1, name: "lo".to_string(), hardware_address: MacAddr::zero(), ipv4: vec![Ipv4::new(127, 0, 0, 1)] },
        NetworkInterface { index: 2, name: "eth0".to_string(), hardware_address: MacAddr::new(2, 0, 0, 0, 0, 2), ipv4: vec![] },
        NetworkInterface {
            index: 3,
            name: "wlan0".to_string(),
            hardware_address: MacAddr::new(2, 0, 0, 0, 0, 3),
            ipv4: vec![Ipv4::new(10, 0, 0, 5), Ipv4::new(192, 168, 1, 10)],
        },
        NetworkInterface { index: 4, name: "wlan0".to_string(), hardware_address: MacAddr::new(2, 0, 0, 0, 0, 4), ipv4: vec![Ipv4::new(192, 168, 1, 10)] },
    ]
}

#[test]
fn explicit_name_is_matched_exactly() {
    let list = interfaces();
    let chosen = select(&list, &Some("wlan0".to_string()), None).unwrap();
    assert_eq!(chosen.index, 3);
    assert_eq!(chosen.hardware_address, MacAddr::new(2, 0, 0, 0, 0, 3));
    assert_eq!(chosen.primary_ipv4(), Some(Ipv4::new(10, 0, 0, 5)));
    assert_eq!(select_index(&list, &Some("lo".to_string()), Some(Ipv4::new(192, 168, 1, 10))), Ok(0));
}

#[test]
fn unknown_name_is_not_found() {
    let list = interfaces();
    assert_eq!(select(&list, &Some("wlan".to_string()), Some(Ipv4::new(10, 0, 0, 5))).err(), Some(SelectError::InterfaceNotFound));
    assert_eq!(select(&list, &Some("WLAN0".to_string()), None).err(), Some(SelectError::InterfaceNotFound));
    assert_eq!(select(&vec![], &Some("lo".to_string()), None).err(), Some(SelectError::InterfaceNotFound));
}

#[test]
fn named_interface_without_address_is_refused_not_replaced() {
    let list = interfaces();
    assert_eq!(
        select(&list, &Some("eth0".to_string()), Some(Ipv4::new(192, 168, 1, 10))).err(),
        Some(SelectError::NoIPv4Address)
    );
}

#[test]
fn default_route_picks_the_first_interface_bound_to_it() {
    let list = interfaces();
    let chosen = select(&list, &None, Some(Ipv4::new(192, 168, 1, 10))).unwrap();
    assert_eq!(chosen.index, 3);
    assert_eq!(chosen.name, "wlan0".to_string());
    assert!(chosen.is_bound_to(Ipv4::new(192, 168, 1, 10)));
    assert!(!chosen.is_bound_to(Ipv4::new(192, 168, 1, 11)));
}

#[test]
fn no_default_interface() {
    let list = interfaces();
    assert_eq!(select(&list, &None, None).err(), Some(SelectError::NoDefaultInterface));
    assert_eq!(select(&list, &None, Some(Ipv4::new(8, 8, 8, 8))).err(), Some(SelectError::NoDefaultInterface));
}
