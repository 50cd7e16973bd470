use killswitch::controller::rules_for;
use killswitch::error::KillswitchError;
use killswitch::interfaces::InterfaceInfo;
use killswitch::rules::{generate, render_rules};

fn sample_interfaces() -> Vec<InterfaceInfo> {
    vec![
        InterfaceInfo {
            name: "en0".to_string(),
            mac: "aa:bb:cc:dd:ee:ff".to_string(),
            ip: "192.168.1.100/24".to_string(),
            is_p2p: false,
        },
        InterfaceInfo {
            name: "utun3".to_string(),
            mac: String::new(),
            ip: "10.8.0.2".to_string(),
            is_p2p: true,
        },
    ]
}

#[test]
fn test_generate_basic() {
    let rules = generate("203.0.113.1", &sample_interfaces(), false, false).unwrap();
    assert!(rules.contains("vpn_ip = \"203.0.113.1\""));
    assert!(rules.contains("set block-policy drop"));
    assert!(rules.contains("set skip on lo0"));
    assert!(rules.contains("block all"));
    assert!(rules.contains("block out inet6"));
    assert!(rules.contains("pass from any to 255.255.255.255 keep state"));
    assert!(rules.contains("from any port 67:68 to any port 67:68 keep state"));
    assert!(!rules.contains("icmp-type 8 code 0"));
}

#[test]
fn test_generate_with_leak() {
    let rules = generate("203.0.113.1", &sample_interfaces(), true, false).unwrap();
    assert!(rules.contains("pass quick proto {tcp, udp} from any to any port 53 keep state"));
    assert!(rules.contains("icmp-type 8 code 0 keep state"));
}

#[test]
fn generate_without_leak_has_no_dns_exception() {
    let rules = generate("203.0.113.1", &sample_interfaces(), false, false).unwrap();
    assert!(!rules.contains("port 53"));
}

#[test]
fn rendered_file_exactly() {
    let rules = render_rules("203.0.113.1", &sample_interfaces(), true, true, "STAMP").unwrap();
    let sep = "-".repeat(62);
    let expected = format!(
        "# {sep}\n# STAMP\n# sudo pfctl -Fa -f /tmp/killswitch.pf.conf -e\n# {sep}\n\
int_en0 = \"en0\"\nvpn_utun3 = \"utun3\"\nvpn_ip = \"203.0.113.1\"\n\n\
set block-policy drop\nset ruleset-optimization basic\nset skip on lo0\n\n\
block all\nblock out inet6\n\n\
# dns\npass quick proto {{tcp, udp}} from any to any port 53 keep state\n\n\
# Allow broadcasts on internal interface\npass from any to 255.255.255.255 keep state\npass from 255.255.255.255 to any keep state\n\n\
# Allow multicast\npass proto udp from any to 224.0.0.0/4 keep state\npass proto udp from 224.0.0.0/4 to any keep state\n\n\
# Allow ping\npass on $int_en0 inet proto icmp all icmp-type 8 code 0 keep state\n\n\
# Allow dhcp\npass on $int_en0 proto {{tcp,udp}} from any port 67:68 to any port 67:68 keep state\n\n\
pass from $int_en0:network to $int_en0:network\n\
# use only the vpn\npass on $int_en0 proto {{tcp, udp}} from any to $vpn_ip\n\
pass on $vpn_utun3 all\n"
    );
    assert_eq!(rules, expected);
}

#[test]
fn synthesis_is_deterministic_but_for_the_stamp() {
    let a = generate("203.0.113.1", &sample_interfaces(), false, false).unwrap();
    let b = generate("203.0.113.1", &sample_interfaces(), false, false).unwrap();
    let drop_stamp = |t: &str| {
        t.lines()
            .enumerate()
            .filter(|(i, _)| *i != 1)
            .map(|(_, l)| l.to_string())
            .collect::<Vec<_>>()
    };
    assert_eq!(drop_stamp(&a), drop_stamp(&b));
    let x = render_rules("203.0.113.1", &sample_interfaces(), false, false, "T").unwrap();
    let y = render_rules("203.0.113.1", &sample_interfaces(), false, false, "T").unwrap();
    assert_eq!(x, y);
}

#[test]
fn generate_stamps_the_local_time() {
    let a = generate("203.0.113.1", &Vec::new(), false, false).unwrap();
    let line = a.lines().nth(1).unwrap();
    assert!(line.starts_with("# "));
    let stamp: Vec<char> = line[2..].chars().collect();
    let n = stamp.len();
    assert!(n >= 31);
    assert!(stamp[..3].iter().all(|c| c.is_ascii_alphabetic()));
    assert_eq!(&stamp[3..5], &[',', ' ']);
    assert_eq!(stamp[n - 12], ':');
    assert_eq!(stamp[n - 9], ':');
    assert!(stamp[n - 5] == '+' || stamp[n - 5] == '-');
    assert!(stamp[n - 4..].iter().all(|c| c.is_ascii_digit()));
    assert_eq!(a.lines().count(), generate("203.0.113.1", &Vec::new(), false, false).unwrap().lines().count());
}

#[test]
fn generate_refuses_a_non_address() {
    assert_eq!(
        generate("not-an-ip", &sample_interfaces(), false, false),
        Err(KillswitchError::Validation)
    );
    let v6 = generate("2001:DB8:0::1", &sample_interfaces(), false, false).unwrap();
    assert!(v6.contains("vpn_ip = \"2001:db8::1\""));
}

#[test]
fn rules_need_an_endpoint() {
    let ifs = sample_interfaces();
    assert_eq!(
        rules_for(None, None, &ifs, false, false),
        Err(KillswitchError::Detection)
    );
    assert_eq!(
        rules_for(Some("10.8.0.1".to_string()), None, &ifs, false, false),
        Err(KillswitchError::Validation)
    );
    let r = rules_for(None, Some("52.1.2.3".to_string()), &ifs, false, false).unwrap();
    assert!(r.contains("vpn_ip = \"52.1.2.3\""));
    let r = rules_for(
        Some("198.51.100.1".to_string()),
        Some("52.1.2.3".to_string()),
        &ifs,
        true,
        true,
    )
    .unwrap();
    assert!(r.contains("vpn_ip = \"198.51.100.1\""));
    assert!(r.contains("pass from $int_en0:network to $int_en0:network"));
}
