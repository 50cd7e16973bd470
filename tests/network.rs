use killswitch::interfaces::{hex_to_cidr, parse_interfaces};
use killswitch::ip::{is_ip_text, is_vpn_gateway};
use killswitch::ipv6::display_address;
use killswitch::network::{
    connected_services, detect_step, extract_gateway, first_remote_address, extract_gateway_from_msg,
    extract_ipv4_from_sockaddr, extract_peer_address, first_strategy, gateway_from_ifconfig,
    gateway_from_netstat, parse_routing_table, remote_address, DetectStep, Strategy,
};
use killswitch::text::{find_word, lines_of, split_words};

#[test]
fn test_extract_gateway() {
    let line = "52.1.2.3           192.168.1.1        UGSH              en0";
    assert_eq!(extract_gateway(line), Some("52.1.2.3".to_string()));

    let line2 = "203.0.113.50       10.0.0.1           UGSc              en0";
    assert_eq!(extract_gateway(line2), Some("203.0.113.50".to_string()));

    let line3 = "default            192.168.1.1        UGSc              en0";
    assert_eq!(extract_gateway(line3), None);
}

#[test]
fn test_is_vpn_gateway_public() {
    assert!(is_vpn_gateway("8.8.8.8"));
    assert!(is_vpn_gateway("1.1.1.1"));
    assert!(is_vpn_gateway("52.1.2.3"));
}

#[test]
fn test_is_vpn_gateway_private() {
    assert!(!is_vpn_gateway("10.0.0.1"));
    assert!(!is_vpn_gateway("172.16.0.1"));
    assert!(!is_vpn_gateway("192.168.1.1"));
    assert!(!is_vpn_gateway("127.0.0.1"));
    assert!(!is_vpn_gateway("169.254.1.1"));
}

#[test]
fn test_is_vpn_gateway_special() {
    assert!(!is_vpn_gateway("0.0.0.0"));
    assert!(!is_vpn_gateway("128.0.0.0"));
}

#[test]
fn test_extract_peer_address_arrow() {
    let line = "\tinet 10.8.0.2 --> 10.8.0.1 netmask 0xffffffff";
    assert_eq!(extract_peer_address(line), Some("10.8.0.1".to_string()));
}

#[test]
fn test_extract_peer_address_peer() {
    let line = "\tinet 192.168.1.2 peer 192.168.1.1 netmask 0xffffff00";
    assert_eq!(extract_peer_address(line), Some("192.168.1.1".to_string()));
}

#[test]
fn test_extract_peer_address_none() {
    let line = "\tinet 192.168.1.2 netmask 0xffffff00";
    assert_eq!(extract_peer_address(line), None);
}

#[test]
fn test_is_vpn_gateway_boundary_private() {
    assert!(!is_vpn_gateway("172.16.0.1"));
    assert!(!is_vpn_gateway("172.31.255.255"));
    assert!(is_vpn_gateway("172.15.255.255"));
    assert!(is_vpn_gateway("172.32.0.1"));
}

#[test]
fn test_is_vpn_gateway_multicast_and_reserved() {
    assert!(!is_vpn_gateway("0.0.0.0"));
    assert!(!is_vpn_gateway("128.0.0.0"));
    assert!(!is_vpn_gateway("255.255.255.255"));
}

#[test]
fn test_is_vpn_gateway_ipv6_rejected() {
    assert!(!is_vpn_gateway("::1"));
    assert!(!is_vpn_gateway("2001:db8::1"));
}

#[test]
fn test_is_vpn_gateway_invalid_input() {
    assert!(!is_vpn_gateway("not-an-ip"));
    assert!(!is_vpn_gateway(""));
}

#[test]
fn test_extract_gateway_destination_column() {
    let line = "8.8.8.8            192.168.1.1        UGSH              en0";
    assert_eq!(extract_gateway(line), Some("8.8.8.8".to_string()));
}

#[test]
fn test_hex_to_cidr_network() {
    assert_eq!(hex_to_cidr("0xffffff00"), Some(24));
    assert_eq!(hex_to_cidr("0xffff0000"), Some(16));
    assert_eq!(hex_to_cidr("0xff000000"), Some(8));
    assert_eq!(hex_to_cidr("0xffffffff"), Some(32));
    assert_eq!(hex_to_cidr("invalid"), None);
}

#[test]
fn test_hex_to_cidr() {
    assert_eq!(hex_to_cidr("0xffffff00"), Some(24));
    assert_eq!(hex_to_cidr("0xffff0000"), Some(16));
    assert_eq!(hex_to_cidr("0xffffffff"), Some(32));
}

fn extract_network(line: &str) -> Option<String> {
    let parts = split_words(line);
    let inet_pos = find_word(&parts, "inet")?;
    let ip = parts.get(inet_pos + 1)?;
    let netmask_pos = find_word(&parts, "netmask")?;
    let netmask_hex = parts.get(netmask_pos + 1)?;
    let cidr = hex_to_cidr(netmask_hex)?;
    Some(format!("{ip}/{cidr}"))
}

#[test]
fn test_extract_network() {
    let line = "\tinet 192.168.1.100 netmask 0xffffff00 broadcast 192.168.1.255";
    assert_eq!(extract_network(line), Some("192.168.1.100/24".to_string()));
}

#[test]
fn mask_edge_values() {
    assert_eq!(hex_to_cidr("0x0"), Some(0));
    assert_eq!(hex_to_cidr("0x+ff"), Some(8));
    assert_eq!(hex_to_cidr("0x00000000ffffffff"), Some(32));
    assert_eq!(hex_to_cidr("0x100000000"), None);
    assert_eq!(hex_to_cidr("0x"), None);
    assert_eq!(hex_to_cidr("ffffff00"), None);
    assert_eq!(hex_to_cidr("0xfffffg00"), None);
    assert_eq!(hex_to_cidr("0xFFFF0000"), Some(16));
}

#[test]
fn gate_accepts_and_rejects_block_edges() {
    assert!(!is_vpn_gateway("172.16.0.0"));
    assert!(!is_vpn_gateway("10.255.255.255"));
    assert!(is_vpn_gateway("11.0.0.0"));
    assert!(is_vpn_gateway("9.255.255.255"));
    assert!(!is_vpn_gateway("224.0.0.0"));
    assert!(!is_vpn_gateway("239.1.2.3"));
    assert!(is_vpn_gateway("223.255.255.255"));
    assert!(!is_vpn_gateway("169.254.0.1"));
    assert!(is_vpn_gateway("169.253.0.1"));
    assert!(!is_vpn_gateway("192.168.0.0"));
    assert!(is_vpn_gateway("192.169.0.1"));
    assert!(!is_vpn_gateway("01.2.3.4"));
    assert!(!is_vpn_gateway("1.2.3.256"));
    assert!(!is_vpn_gateway("1.2.3"));
    assert!(!is_vpn_gateway("1.2.3.4.5"));
}

#[test]
fn ip_text_recognises_both_families() {
    assert!(is_ip_text("203.0.113.1"));
    assert!(is_ip_text("::"));
    assert!(is_ip_text("::1"));
    assert!(is_ip_text("2001:db8::1"));
    assert!(is_ip_text("1:2:3:4:5:6:7:8"));
    assert!(is_ip_text("::ffff:1.2.3.4"));
    assert!(is_ip_text("1:2:3:4:5:6:1.2.3.4"));
    assert!(is_ip_text("1:2:3:4:5:6:7::"));
    assert!(!is_ip_text("1:2:3:4:5:6:7:8:9"));
    assert!(!is_ip_text("1:2:3:4:5:6:7:8::"));
    assert!(!is_ip_text("1::2::3"));
    assert!(!is_ip_text(":::"));
    assert!(!is_ip_text("12345::"));
    assert!(!is_ip_text("default"));
    assert!(!is_ip_text(""));
}

#[test]
fn route_text_scan_takes_destination() {
    let listing = "Routing tables\n\nInternet:\nDestination        Gateway            Flags        Netif Expire\ndefault            192.168.1.1        UGScg          en0\n10.8.0.1           10.8.0.2           UGSH         utun4\n52.1.2.3           192.168.1.1        UGSH           en0\n";
    assert_eq!(gateway_from_netstat(listing), Some("52.1.2.3".to_string()));
    assert_eq!(gateway_from_netstat("default 192.168.1.1 UGSc en0\n"), None);
    assert_eq!(gateway_from_netstat(""), None);
}

fn route_message(flags: u32, addrs: u32, dest: [u8; 4], family: u8) -> Vec<u8> {
    let mut m = vec![0u8; 92];
    let len = (92 + 16) as u16;
    m[0..2].copy_from_slice(&len.to_le_bytes());
    m[8..12].copy_from_slice(&addrs.to_le_bytes());
    m[12..16].copy_from_slice(&flags.to_le_bytes());
    m.extend_from_slice(&[16, family, 0, 0, dest[0], dest[1], dest[2], dest[3]]);
    m.extend_from_slice(&[0u8; 8]);
    m
}

#[test]
fn sockaddr_decoding() {
    assert_eq!(
        extract_ipv4_from_sockaddr(&[16, 2, 0, 0, 203, 0, 113, 7]),
        Some("203.0.113.7".to_string())
    );
    assert_eq!(extract_ipv4_from_sockaddr(&[16, 30, 0, 0, 203, 0, 113, 7]), None);
    assert_eq!(extract_ipv4_from_sockaddr(&[4, 2, 0, 0, 203, 0, 113, 7]), None);
    assert_eq!(extract_ipv4_from_sockaddr(&[16, 2, 0, 0, 203]), None);
    assert_eq!(extract_ipv4_from_sockaddr(&[]), None);
}

#[test]
fn routing_message_decoding() {
    let m = route_message(0x807, 1, [52, 1, 2, 3], 2);
    assert_eq!(extract_gateway_from_msg(&m), Some("52.1.2.3".to_string()));
    let no_dst = route_message(0x807, 4, [52, 1, 2, 3], 2);
    assert_eq!(extract_gateway_from_msg(&no_dst), None);
    assert_eq!(extract_gateway_from_msg(&m[..19]), None);
    assert_eq!(extract_gateway_from_msg(&m[..92]), None);
}

#[test]
fn routing_table_stream() {
    let mut data = route_message(0x803, 1, [8, 8, 4, 4], 2);
    data.extend(route_message(0x807, 1, [10, 8, 0, 1], 2));
    data.extend(route_message(0x10803, 1, [198, 51, 100, 9], 2));
    data.extend(route_message(0x807, 1, [52, 1, 2, 3], 2));
    assert_eq!(parse_routing_table(&data), Some("198.51.100.9".to_string()));

    let mut truncated = route_message(0x807, 1, [10, 0, 0, 1], 2);
    let mut last = route_message(0x807, 1, [52, 1, 2, 3], 2);
    last.truncate(50);
    truncated.extend(last);
    assert_eq!(parse_routing_table(&truncated), None);

    let mut zero = vec![0u8, 0, 0, 0];
    zero.extend(route_message(0x807, 1, [52, 1, 2, 3], 2));
    assert_eq!(parse_routing_table(&zero), None);
    assert_eq!(parse_routing_table(&[]), None);
}

#[test]
fn vpn_service_listing() {
    let listing = "Available network connection services in the current set (*=enabled):\n* (Disconnected)   AAAA-1111 VPN (com.example) \"Old\"\n* (Connected)      BBBB-2222 VPN (com.wireguard) \"Home\"\n* (Connected)\n";
    let ids = connected_services(listing);
    assert_eq!(ids, vec!["BBBB-2222".to_string()]);
    assert_eq!(connected_services("nothing here\n"), Vec::<String>::new());
    let malformed_first = "* (Connected)\n* (Connected)      CCCC-3333 VPN (com.example) \"Work\"\n";
    assert_eq!(connected_services(malformed_first), vec!["CCCC-3333".to_string()]);
}

#[test]
fn vpn_service_detail() {
    let detail = "<dictionary> {\n  RemoteAddress : 10.0.0.1\n  RemoteAddress : 198.51.100.20  \n}\n";
    assert_eq!(remote_address(detail), Some("198.51.100.20".to_string()));
    assert_eq!(remote_address("  RemoteAddress : 192.168.0.1\n"), None);
    assert_eq!(remote_address("Status : Connected\n"), None);
}

#[test]
fn first_service_address_wins() {
    let details = vec![
        None,
        Some("  RemoteAddress : 10.0.0.1\n".to_string()),
        Some("  RemoteAddress : 198.51.100.20\n".to_string()),
        Some("  RemoteAddress : 203.0.113.5\n".to_string()),
    ];
    assert_eq!(first_remote_address(&details), Some("198.51.100.20".to_string()));
    assert_eq!(first_remote_address(&vec![None, Some(String::new())]), None);
    assert_eq!(first_remote_address(&Vec::new()), None);
}

#[test]
fn tunnel_peer_fallback() {
    let listing = "en0: flags=8863<UP,BROADCAST> mtu 1500\n\tinet 192.168.1.2 netmask 0xffffff00 broadcast 192.168.1.255\nutun3: flags=8051<UP,POINTOPOINT,RUNNING> mtu 1400\n\tinet 10.8.0.2 --> 10.8.0.1 netmask 0xffffffff\nppp0: flags=8051<UP,POINTOPOINT> mtu 1280\n\tinet 10.1.1.2 --> 203.0.113.9 netmask 0xff000000\n";
    assert_eq!(gateway_from_ifconfig(listing), Some("203.0.113.9".to_string()));
    let private_only = "utun3: flags=8051<UP,POINTOPOINT,RUNNING> mtu 1400\n\tinet 10.8.0.2 --> 10.8.0.1 netmask 0xffffffff\n";
    assert_eq!(gateway_from_ifconfig(private_only), None);
    assert_eq!(gateway_from_ifconfig("en0: flags=8863<UP> mtu 1500\n"), None);
}

#[test]
fn interface_listing() {
    let listing = "lo0: flags=8049<UP,LOOPBACK,RUNNING,MULTICAST> mtu 16384\n\tinet 127.0.0.1 netmask 0xff000000\nen0: flags=8863<UP,BROADCAST,SMART,RUNNING,SIMPLEX,MULTICAST> mtu 1500\n\tether aa:bb:cc:dd:ee:ff \n\tinet6 fe80::1%en0 prefixlen 64 scopeid 0x4\n\tinet 192.168.1.100 netmask 0xffffff00 broadcast 192.168.1.255\nen1: flags=8822<BROADCAST,SMART,SIMPLEX,MULTICAST> mtu 1500\n\tinet 192.168.2.5 netmask 0xffffff00\nutun3: flags=8051<UP,POINTOPOINT,RUNNING,MULTICAST> mtu 1400\n\tinet 10.8.0.2 --> 10.8.0.1 netmask 0xffffffff\n";
    let ifs = parse_interfaces(listing);
    assert_eq!(ifs.len(), 2);
    assert_eq!(ifs[0].name, "en0");
    assert_eq!(ifs[0].mac, "aa:bb:cc:dd:ee:ff");
    assert_eq!(ifs[0].ip, "192.168.1.100/24");
    assert!(!ifs[0].is_p2p);
    assert_eq!(ifs[1].name, "utun3");
    assert_eq!(ifs[1].mac, "");
    assert_eq!(ifs[1].ip, "10.8.0.2");
    assert!(ifs[1].is_p2p);
    assert!(parse_interfaces("").is_empty());
}

#[test]
fn one_entry_per_interface() {
    let listing = "en0: flags=8863<UP,BROADCAST,RUNNING> mtu 1500\n\tinet 127.0.0.2 netmask 0xff000000\n\tinet 192.168.1.100 netmask 0xffffff00 broadcast 192.168.1.255\n\tinet 10.0.0.7 netmask 0xff000000\n\tether aa:bb:cc:dd:ee:ff\nen2: flags=8863<UP,BROADCAST,RUNNING> mtu 1500\n\tether 11:22:33:44:55:66\n";
    let ifs = parse_interfaces(listing);
    assert_eq!(ifs.len(), 1);
    assert_eq!(ifs[0].name, "en0");
    assert_eq!(ifs[0].ip, "192.168.1.100/24");
    assert_eq!(ifs[0].mac, "aa:bb:cc:dd:ee:ff");
}

#[test]
fn lines_keep_a_final_carriage_return() {
    let ls = lines_of("a\r\nb\n\nc\r");
    assert_eq!(ls, vec!["a".to_string(), "b".to_string(), String::new(), "c\r".to_string()]);
    assert_eq!(lines_of(""), Vec::<String>::new());
    assert_eq!(lines_of("x\n"), vec!["x".to_string()]);
}

#[test]
fn interface_without_readable_mask() {
    let listing = "en5: flags=8863<UP,BROADCAST> mtu 1500\n\tinet 100.64.0.7 netmask zz\n";
    let ifs = parse_interfaces(listing);
    assert_eq!(ifs.len(), 1);
    assert_eq!(ifs[0].ip, "100.64.0.7");
}

#[test]
fn detection_chain_order() {
    assert_eq!(first_strategy(), Strategy::RoutingTable);
    assert_eq!(
        detect_step(Strategy::RoutingTable, None),
        DetectStep::Run(Strategy::RouteText)
    );
    assert_eq!(
        detect_step(Strategy::RouteText, None),
        DetectStep::Run(Strategy::VpnService)
    );
    assert_eq!(
        detect_step(Strategy::VpnService, None),
        DetectStep::Run(Strategy::InterfacePeer)
    );
    assert_eq!(detect_step(Strategy::InterfacePeer, None), DetectStep::Exhausted);
    assert_eq!(
        detect_step(Strategy::RouteText, Some("52.1.2.3".to_string())),
        DetectStep::Found("52.1.2.3".to_string())
    );
}

#[test]
fn nothing_detected_runs_every_strategy_then_stops() {
    let mut s = first_strategy();
    let mut runs = 1;
    loop {
        match detect_step(s, None) {
            DetectStep::Run(n) => {
                s = n;
                runs += 1;
            }
            DetectStep::Exhausted => break,
            DetectStep::Found(_) => panic!("nothing was offered"),
        }
    }
    assert_eq!(runs, 4);
}

#[test]
fn addresses_are_written_in_display_form() {
    assert_eq!(display_address("203.0.113.1"), "203.0.113.1");
    assert_eq!(display_address("0.0.0.0"), "0.0.0.0");
    assert_eq!(display_address("2001:DB8:0:0:0:0:0:1"), "2001:db8::1");
    assert_eq!(display_address("2001:0db8::0001"), "2001:db8::1");
    assert_eq!(display_address("::ffff:1.2.3.4"), "::ffff:1.2.3.4");
    assert_eq!(display_address("0:0:0:0:0:ffff:102:304"), "::ffff:1.2.3.4");
    assert_eq!(display_address("1:0:0:1:0:0:0:1"), "1:0:0:1::1");
    assert_eq!(display_address("1:0:0:2:0:0:3:4"), "1::2:0:0:3:4");
    assert_eq!(display_address("0:0:0:0:0:0:0:0"), "::");
    assert_eq!(display_address("::1"), "::1");
    assert_eq!(display_address("1::"), "1::");
    assert_eq!(display_address("0:1:0:0:0:0:0:0"), "0:1::");
    assert_eq!(display_address("1:0:2:3:4:5:6:7"), "1:0:2:3:4:5:6:7");
    assert_eq!(display_address("1:2:3:4:5:6:7:8"), "1:2:3:4:5:6:7:8");
    assert_eq!(display_address("::1.2.3.4"), "::102:304");
    assert_eq!(display_address("fFfF::aBcD"), "ffff::abcd");
}
