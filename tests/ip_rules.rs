use pingap::ip_rules::{contains, IpNet, IpRules, IpValue};

fn v4(a: u8, b: u8, c: u8, d: u8) -> IpValue {
    IpValue { v6: false, addr: u128::from(u32::from_be_bytes([a, b, c, d])) }
}

fn net4(a: u8, b: u8, c: u8, d: u8, prefix: u8) -> IpNet {
    IpNet { v6: false, addr: v4(a, b, c, d).addr, prefix }
}

#[test]
fn net_contains_by_prefix() {
    assert!(contains(net4(10, 0, 0, 0, 8), v4(10, 200, 3, 4)));
    assert!(!contains(net4(10, 0, 0, 0, 8), v4(11, 0, 0, 1)));
    assert!(contains(net4(192, 168, 1, 0, 24), v4(192, 168, 1, 255)));
    assert!(!contains(net4(192, 168, 1, 0, 24), v4(192, 168, 2, 1)));
    assert!(contains(net4(1, 2, 3, 4, 32), v4(1, 2, 3, 4)));
    assert!(!contains(net4(1, 2, 3, 4, 32), v4(1, 2, 3, 5)));
    assert!(contains(net4(0, 0, 0, 0, 0), v4(8, 8, 8, 8)));
    let v6_any = IpNet { v6: true, addr: 0, prefix: 0 };
    assert!(!contains(v6_any, v4(1, 1, 1, 1)));
    assert!(contains(v6_any, IpValue { v6: true, addr: 1 }));
    let v6_net = IpNet { v6: true, addr: 0xfe80u128 << 112, prefix: 10 };
    assert!(contains(v6_net, IpValue { v6: true, addr: (0xfe80u128 << 112) | 5 }));
    assert!(!contains(v6_net, IpValue { v6: true, addr: 0x2001u128 << 112 }));
}

#[test]
fn purge_list_decides() {
    let rules = IpRules::new(vec!["127.0.0.1".to_string()], vec![net4(10, 0, 0, 0, 8)]);
    assert_eq!(Ok(true), rules.matched("127.0.0.1", Ok(v4(127, 0, 0, 1))));
    assert_eq!(Ok(true), rules.matched("10.1.2.3", Ok(v4(10, 1, 2, 3))));
    assert_eq!(Ok(false), rules.matched("192.168.0.1", Ok(v4(192, 168, 0, 1))));
    assert_eq!(
        Err("invalid IP address syntax".to_string()),
        rules.matched("bogus", Err("invalid IP address syntax".to_string()))
    );
    assert_eq!(Ok(true), rules.matched("127.0.0.1", Err("unread".to_string())));
    let empty = IpRules::new(Vec::new(), Vec::new());
    assert_eq!(Ok(false), empty.matched("127.0.0.1", Ok(v4(127, 0, 0, 1))));
}
