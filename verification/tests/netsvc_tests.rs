use desktop_service::data::ServiceError;
use desktop_service::netsvc::{
    default_network_service, default_network_service_by_ns, find_interface_for_addr,
    get_server_by_order, listnetworkserviceorder, InterfaceEntry, NetEnv, resolve_service,
};

fn order_listing() -> String {
    "An asterisk (*) denotes that a network service is disabled.\n(1) Wi-Fi\n(Hardware Port: Wi-Fi, Device: en0)\n(2) Thunderbolt Bridge\n(Hardware Port: Thunderbolt Bridge, Device: bridge0)\n"
        .to_string()
}

#[test]
fn listing_parses_well_formed_entries() {
    let entries = listnetworkserviceorder(&order_listing());
    assert_eq!(entries.len(), 2);
    assert_eq!(entries[0].service, "Wi-Fi");
    assert_eq!(entries[0].port, "Wi-Fi");
    assert_eq!(entries[0].device, "en0");
    assert_eq!(entries[1].service, "Thunderbolt Bridge");
    assert_eq!(entries[1].port, "Thunderbolt Bridge");
    assert_eq!(entries[1].device, "bridge0");
}

#[test]
fn listing_skips_malformed_entry() {
    // The middle service's detail line lacks the `, Device:` marker: that
    // service contributes nothing, and the well-formed groups around it
    // come through untouched — in particular the service after it keeps
    // its own name and device.
    let text = "An asterisk (*) denotes that a network service is disabled.\n(1) Wi-Fi\n(Hardware Port: Wi-Fi, Device: en0)\n(2) Broken Service\n(Hardware Port: Broken Service)\n(3) Thunderbolt Bridge\n(Hardware Port: Thunderbolt Bridge, Device: bridge0)\n";
    let entries = listnetworkserviceorder(text);
    assert_eq!(entries.len(), 2);
    assert_eq!(entries[0].service, "Wi-Fi");
    assert_eq!(entries[0].device, "en0");
    assert_eq!(entries[1].service, "Thunderbolt Bridge");
    assert_eq!(entries[1].device, "bridge0");
}

#[test]
fn listing_orphan_detail_line_contributes_nothing() {
    // A detail line with no name line before it completes no entry, and a
    // name whose detail line is missing is dropped rather than paired
    // with a later detail line.
    let text = "header\n(1) Wi-Fi\n(Hardware Port: Wi-Fi, Device: en0)\n(2) Broken Service\n(Hardware Port: Broken Service)\n(Hardware Port: Thunderbolt Bridge, Device: bridge0)\n";
    let entries = listnetworkserviceorder(text);
    assert_eq!(entries.len(), 1);
    assert_eq!(entries[0].service, "Wi-Fi");
    assert_eq!(entries[0].device, "en0");
}

#[test]
fn listing_ignores_non_parenthesized_lines() {
    let text = "header\nnot an entry\n(1) Ethernet\n(Hardware Port: Ethernet, Device: en1)\n";
    let entries = listnetworkserviceorder(text);
    assert_eq!(entries.len(), 1);
    assert_eq!(entries[0].service, "Ethernet");
    assert_eq!(entries[0].device, "en1");
}

#[test]
fn get_server_by_order_finds_owning_service() {
    let order = Some(order_listing());
    let r = get_server_by_order(&order, "bridge0");
    assert_eq!(r.unwrap(), "Thunderbolt Bridge");

    let r = get_server_by_order(&order, "en7");
    assert!(matches!(r, Err(ServiceError::NoNetworkService)));

    let r = get_server_by_order(&None, "en0");
    assert!(matches!(r, Err(ServiceError::ExternalCommand(_))));
}

#[test]
fn fallback_takes_first_listed_service() {
    let listing = Some("An asterisk (*) denotes ...\nWi-Fi\nEthernet\n".to_string());
    assert_eq!(default_network_service_by_ns(&listing).unwrap(), "Wi-Fi");

    let r = default_network_service_by_ns(&Some("just one line".to_string()));
    assert!(matches!(r, Err(ServiceError::NoNetworkService)));

    let r = default_network_service_by_ns(&None);
    assert!(matches!(r, Err(ServiceError::ExternalCommand(_))));
}

#[test]
fn fallback_with_empty_service_list_is_the_no_service_error() {
    // Only the header line and a trailing newline: the service list is
    // empty, never the empty-string service.
    let r = default_network_service_by_ns(&Some("An asterisk (*) denotes ...\n".to_string()));
    assert!(matches!(r, Err(ServiceError::NoNetworkService)));

    // A blank line after the header is the empty list too.
    let r = default_network_service_by_ns(&Some("header\n   \nWi-Fi\n".to_string()));
    assert!(matches!(r, Err(ServiceError::NoNetworkService)));
}

#[test]
fn interface_match_takes_first_holder() {
    let ifs = vec![
        InterfaceEntry { name: "lo0".to_string(), addrs: vec!["127.0.0.1:0".to_string()] },
        InterfaceEntry {
            name: "en0".to_string(),
            addrs: vec!["10.0.0.5:0".to_string(), "192.168.1.2:0".to_string()],
        },
        InterfaceEntry { name: "en1".to_string(), addrs: vec!["192.168.1.2:0".to_string()] },
    ];
    assert_eq!(find_interface_for_addr(&ifs, "192.168.1.2:0"), Some("en0".to_string()));
    assert_eq!(find_interface_for_addr(&ifs, "127.0.0.1:0"), Some("lo0".to_string()));
    assert_eq!(find_interface_for_addr(&ifs, "8.8.8.8:0"), None);
}

#[test]
fn resolution_falls_back_to_plain_listing() {
    // No local address: the interface path fails, the plain listing wins.
    let env = NetEnv {
        local_addr: None,
        order_output: Some(order_listing()),
        services_output: Some("notice\nWi-Fi\n".to_string()),
    };
    assert_eq!(resolve_service(&env).unwrap(), "Wi-Fi");

    // Both paths out of reach: the fallback's error is reported.
    let env = NetEnv { local_addr: None, order_output: None, services_output: None };
    assert!(matches!(resolve_service(&env), Err(ServiceError::ExternalCommand(_))));

    let env = NetEnv {
        local_addr: None,
        order_output: None,
        services_output: Some("".to_string()),
    };
    assert!(matches!(resolve_service(&env), Err(ServiceError::NoNetworkService)));
}

#[test]
fn direct_resolution_needs_local_address() {
    let r = default_network_service(&None, &Some(order_listing()));
    assert!(matches!(r, Err(ServiceError::Io(_))));
}

#[test]
fn resolution_fails_when_both_paths_fail() {
    // No outbound address and an empty fallback list: the error is
    // forced, whatever the order listing would have offered.
    let env = NetEnv {
        local_addr: None,
        order_output: Some(order_listing()),
        services_output: Some("An asterisk (*) denotes ...\n".to_string()),
    };
    assert!(matches!(resolve_service(&env), Err(ServiceError::NoNetworkService)));
}
