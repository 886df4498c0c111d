use cubic::models::port_forward::{parse_ip, HostIp, PortForward, Protocol};

fn text(ip: &str) -> String {
    parse_ip(ip).unwrap().to_string()
}

#[test]
fn ipv6_addresses_parse_as_the_standard_library_reads_them() {
    assert_eq!(parse_ip("::1"), Some(HostIp::V6(0, 0, 0, 0, 0, 0, 0, 1)));
    assert_eq!(parse_ip("::"), Some(HostIp::V6(0, 0, 0, 0, 0, 0, 0, 0)));
    assert_eq!(parse_ip("2001:db8::1"), Some(HostIp::V6(0x2001, 0xdb8, 0, 0, 0, 0, 0, 1)));
    assert_eq!(parse_ip("ABCD::"), Some(HostIp::V6(0xabcd, 0, 0, 0, 0, 0, 0, 0)));
    assert_eq!(parse_ip("1:2:3:4:5:6:7:8"), Some(HostIp::V6(1, 2, 3, 4, 5, 6, 7, 8)));
    assert_eq!(parse_ip("1:2:3:4:5:6:7::"), Some(HostIp::V6(1, 2, 3, 4, 5, 6, 7, 0)));
    assert_eq!(parse_ip("::ffff:127.0.0.1"), Some(HostIp::V6(0, 0, 0, 0, 0, 0xffff, 0x7f00, 1)));
    assert_eq!(parse_ip("1:2:3:4:5:6:1.2.3.4"), Some(HostIp::V6(1, 2, 3, 4, 5, 6, 0x0102, 0x0304)));
    assert_eq!(parse_ip("127.0.0.1"), Some(HostIp::V4(127, 0, 0, 1)));
}

#[test]
fn ipv6_texts_the_standard_library_refuses_are_refused() {
    for bad in ["12345::", ":::", "1:2:3:4:5:6:7:8:9", "1::2::3", "1.2.3.4::", "1:2:3:4:5:6:7", "::g", ":1::", "1:2:3:4:5:6:7:8::"] {
        assert_eq!(parse_ip(bad), None, "{bad}");
    }
}

#[test]
fn ipv6_addresses_read_back_as_displayed() {
    for (ip, shown) in [
        ("::1", "::1"),
        ("2001:db8::1", "2001:db8::1"),
        ("fe80::1:2", "fe80::1:2"),
        ("::ffff:10.0.0.1", "::ffff:10.0.0.1"),
        ("1::", "1::"),
        ("a:b:c:d:e:f:1:2", "a:b:c:d:e:f:1:2"),
    ] {
        let parsed = parse_ip(ip).unwrap();
        assert_eq!(parsed.to_string(), shown, "{ip}");
        assert_eq!(parse_ip(shown), Some(parsed), "{ip}");
    }
}

#[test]
fn ipv6_addresses_display_with_the_longest_zero_run_compressed() {
    assert_eq!(text("0:0:0:0:0:0:0:1"), "::1");
    assert_eq!(text("::"), "::");
    assert_eq!(text("1:0:0:2:0:0:0:3"), "1:0:0:2::3");
    assert_eq!(text("1:0:0:2:0:0:3:4"), "1::2:0:0:3:4");
    assert_eq!(text("1:0:2:3:4:5:6:7"), "1:0:2:3:4:5:6:7");
    assert_eq!(text("::ffff:127.0.0.1"), "::ffff:127.0.0.1");
    assert_eq!(text("::1.2.3.4"), "::102:304");
    assert_eq!(text("ABCD::"), "abcd::");
}

#[test]
fn a_forward_may_listen_on_an_ipv6_loopback() {
    let forward = PortForward::from_str("::1:8000:80").unwrap();
    assert_eq!(forward.get_host_ip(), HostIp::V6(0, 0, 0, 0, 0, 0, 0, 1));
    assert_eq!(forward.get_host_port(), 8000);
    assert_eq!(forward.get_guest_port(), 80);
    assert_eq!(forward.get_protocol(), Protocol::Tcp);
    assert_eq!(forward.to_string(), "::1:8000:80/tcp");
    assert_eq!(forward.to_qemu(), "tcp:::1:8000-:80");
}
