//! Address allocation over interface snapshots.

use linode::address::{collect_octets, next_host_octet, parse_host_octet, vlan_ipam_address};
use linode::types::{Configuration, Interface};

fn vlan_iface(label: &str, addr: &str) -> Interface {
    Interface {
        purpose: "vlan".to_string(),
        ipam_address: Some(addr.to_string()),
        label: Some(label.to_string()),
    }
}

fn config_with(interfaces: Vec<Interface>) -> Configuration {
    Configuration { id: 1, interfaces }
}

#[test]
fn empty_interface_set_allocates_one() {
    let octets: Vec<u8> = Vec::new();
    assert_eq!(next_host_octet(&octets), Some(1));
}

#[test]
fn next_is_one_past_the_maximum() {
    let octets: Vec<u8> = vec![3, 5, 7];
    assert_eq!(next_host_octet(&octets), Some(8));
}

#[test]
fn unparseable_address_is_skipped() {
    let configs = vec![config_with(vec![
        vlan_iface("web", "10.0.0.3/24"),
        vlan_iface("web", "garbage"),
        vlan_iface("web", "10.0.0.7/24"),
    ])];
    let octets = collect_octets(&configs, "web");
    assert_eq!(octets, vec![3, 7]);
    assert_eq!(next_host_octet(&octets), Some(8));
}

#[test]
fn other_groups_do_not_contribute() {
    let configs = vec![config_with(vec![
        vlan_iface("web", "10.0.0.3/24"),
        vlan_iface("db", "10.0.0.9/24"),
        Interface { purpose: "public".to_string(), ipam_address: None, label: None },
    ])];
    assert_eq!(collect_octets(&configs, "web"), vec![3]);
}

#[test]
fn boundary_octet_254_allocates_255() {
    let octets: Vec<u8> = vec![254];
    assert_eq!(next_host_octet(&octets), Some(255));
}

#[test]
fn boundary_octet_255_is_reported_exhausted() {
    let octets: Vec<u8> = vec![12, 255];
    assert_eq!(next_host_octet(&octets), None);
}

#[test]
fn parses_the_last_octet_before_the_mask() {
    assert_eq!(parse_host_octet("10.0.0.4/24"), Some(4));
    assert_eq!(parse_host_octet("10.0.0.254/24"), Some(254));
    assert_eq!(parse_host_octet("10.0.0.5"), Some(5));
}

#[test]
fn malformed_addresses_do_not_parse() {
    assert_eq!(parse_host_octet(""), None);
    assert_eq!(parse_host_octet("5/24"), None);
    assert_eq!(parse_host_octet("10.0.0.256/24"), None);
    assert_eq!(parse_host_octet("10.0.0.x/24"), None);
    assert_eq!(parse_host_octet("10.0.0./24"), None);
}

#[test]
fn vlan_address_renders_octet() {
    assert_eq!(vlan_ipam_address(5), "10.0.0.5/24");
    assert_eq!(vlan_ipam_address(254), "10.0.0.254/24");
}
