use efbench_client::net::{
    check_connection, check_interface, interface_path, net_stat_path, net_stat_value, server_addr, server_url,
    ClientError,
};

#[test]
fn paths_of_an_interface() {
    assert_eq!(interface_path("eth0"), "/sys/class/net/eth0");
    assert_eq!(net_stat_path("eth0", "rx_bytes"), "/sys/class/net/eth0/statistics/rx_bytes");
    assert_ne!(net_stat_path("eth0", "rx_bytes"), net_stat_path("eth0", "tx_bytes"));
    assert_ne!(interface_path("eth0"), interface_path("eth1"));
}

#[test]
fn a_present_interface_passes() {
    assert!(check_interface("lo", true).is_ok());
}

#[test]
fn a_missing_interface_is_named() {
    let error = check_interface("eth9", false).unwrap_err();
    assert!(matches!(&error, ClientError::InterfaceNotFound { iface, path }
        if iface == "eth9" && path == "/sys/class/net/eth9"));
    assert_eq!(error.message(), "network interface 'eth9' not found at /sys/class/net/eth9");
}

#[test]
fn a_reached_server_passes() {
    assert!(check_connection("10.0.0.1:50051", Ok(())).is_ok());
}

#[test]
fn an_unreachable_server_is_named() {
    let error = check_connection("10.0.0.1:50051", Err(String::from("transport error"))).unwrap_err();
    assert!(matches!(&error, ClientError::ConnectFailed { server_addr, cause }
        if server_addr == "10.0.0.1:50051" && cause == "transport error"));
    assert_eq!(error.message(), "Failed to connect to server at 10.0.0.1:50051: transport error");
}

#[test]
fn addresses_and_urls() {
    assert_eq!(server_addr("127.0.0.1", 50051), "127.0.0.1:50051");
    assert_eq!(server_addr("h", 0), "h:0");
    assert_eq!(server_addr("h", 65535), "h:65535");
    assert_ne!(server_addr("h", 1), server_addr("h", 11));
    assert_eq!(server_url("127.0.0.1:50051"), "http://127.0.0.1:50051");
}

#[test]
fn counters_read_as_numbers_or_zero() {
    assert_eq!(net_stat_value(Some("123456\n")), 123456);
    assert_eq!(net_stat_value(Some("18446744073709551615\n")), u64::MAX);
    assert_eq!(net_stat_value(Some("18446744073709551616\n")), 0);
    assert_eq!(net_stat_value(Some("")), 0);
    assert_eq!(net_stat_value(Some("n/a")), 0);
    assert_eq!(net_stat_value(None), 0);
}
