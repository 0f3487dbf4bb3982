use systeminfo::net::{is_valid_interface, parse_interface_ip};
use systeminfo::display::{format_bytes, get_display_height};
use systeminfo::snapshot::{build_snapshot, label_core_index, RawMemory, RawSample};
use systeminfo::text::{parse_usize, u64_to_string};

#[test]
fn physical_interfaces_pass_the_filter() {
    assert!(is_valid_interface("eth0"));
    assert!(is_valid_interface("enp3s0"));
    assert!(is_valid_interface("wlan0"));
}

#[test]
fn virtual_interfaces_are_filtered_out() {
    assert!(!is_valid_interface("lo"));
    assert!(!is_valid_interface("veth1a2b"));
    assert!(!is_valid_interface("flannel.1"));
    assert!(!is_valid_interface("docker0"));
    assert!(!is_valid_interface("br-9f8e"));
    assert!(!is_valid_interface("vxlan.calico"));
    assert!(!is_valid_interface("cni0"));
    assert!(!is_valid_interface("tun0"));
    assert!(!is_valid_interface("tap3"));
    assert!(!is_valid_interface("virbr0"));
}

#[test]
fn parses_the_first_global_ipv4_address() {
    let out = "2: eth0: <BROADCAST,MULTICAST,UP,LOWER_UP> mtu 1500 qdisc fq_codel\n\
               link/ether aa:bb:cc:dd:ee:ff brd ff:ff:ff:ff:ff:ff\n\
               inet 10.0.0.7/24 brd 10.0.0.255 scope global dynamic eth0\n\
               valid_lft 85732sec preferred_lft 85732sec\n\
               inet6 fe80::1/64 scope link\n";
    assert_eq!(parse_interface_ip(out).as_deref(), Some("10.0.0.7"));
}

#[test]
fn host_scope_lines_are_skipped() {
    let out = "1: lo: <LOOPBACK,UP,LOWER_UP> mtu 65536\n\
               inet 127.0.0.1/8 scope host lo\n";
    assert_eq!(parse_interface_ip(out), None);
}

#[test]
fn loopback_addresses_are_rejected() {
    let out = "inet 127.0.0.53/8 scope global weird\n";
    assert_eq!(parse_interface_ip(out), None);
}

#[test]
fn output_without_inet_lines_yields_nothing() {
    let out = "3: wlan0: <BROADCAST,MULTICAST> mtu 1500\n\
               link/ether 00:11:22:33:44:55\n";
    assert_eq!(parse_interface_ip(out), None);
    assert_eq!(parse_interface_ip(""), None);
}

#[test]
fn later_lines_are_used_when_the_first_is_excluded() {
    let out = "inet 127.0.0.1/8 scope host lo\n\
               inet 192.0.2.9/24 scope global eth1\n";
    assert_eq!(parse_interface_ip(out).as_deref(), Some("192.0.2.9"));
}

#[test]
fn addresses_without_a_mask_are_taken_whole() {
    assert_eq!(
        parse_interface_ip("inet 10.1.2.3 scope global eth0\n").as_deref(),
        Some("10.1.2.3")
    );
}

#[test]
fn an_inet_line_without_an_address_token_yields_nothing() {
    assert_eq!(parse_interface_ip("inet \n"), None);
    assert_eq!(parse_interface_ip("inet    \n"), None);
}

#[test]
fn format_bytes_scales_by_binary_units() {
    assert_eq!(format_bytes(0), "     0 B ");
    assert_eq!(format_bytes(999), "   999 B ");
    assert_eq!(format_bytes(1023), "  1023 B ");
    assert_eq!(format_bytes(1024), "   1.0 KB");
    assert_eq!(format_bytes(1536), "   1.5 KB");
    assert_eq!(format_bytes(1024 * 1024), "   1.0 MB");
    assert_eq!(format_bytes(1024 * 1024 * 1024), "   1.0 GB");
    assert_eq!(format_bytes(1024u64 * 1024 * 1024 * 1024), "   1.0 TB");
}

#[test]
fn format_bytes_rounds_to_the_nearest_tenth() {
    // 1997 / 1024 = 1.95..., which rounds up across the unit boundary
    assert_eq!(format_bytes(1997), "   2.0 KB");
    // 1100 / 1024 = 1.074...
    assert_eq!(format_bytes(1100), "   1.1 KB");
}

#[test]
fn display_height_counts_every_entry() {
    let mut s = RawSample {
        global_cpu_usage: 0,
        core_usages: vec![0, 0, 0, 0],
        components: Vec::new(),
        memory: RawMemory {
            total_kb: 0,
            used_kb: 0,
            free_kb: 0,
            available_kb: 0,
            swap_total_kb: 0,
            swap_used_kb: 0,
        },
        disks: Vec::new(),
        networks: Vec::new(),
    };
    let snap = build_snapshot(&s);
    // sentinel network entry counts as one line; no disks
    assert_eq!(get_display_height(&snap, false), 3 + 0 + 1);
    assert_eq!(get_display_height(&snap, true), 11 + 4 + 0 + 1);
    s.core_usages.clear();
    let snap2 = build_snapshot(&s);
    assert_eq!(get_display_height(&snap2, true), 11 + 0 + 0 + 1);
}

#[test]
fn decimal_rendering_is_exact() {
    assert_eq!(u64_to_string(0), "0");
    assert_eq!(u64_to_string(7), "7");
    assert_eq!(u64_to_string(10), "10");
    assert_eq!(u64_to_string(16_000_000_000), "16000000000");
    assert_eq!(u64_to_string(u64::MAX), "18446744073709551615");
}

#[test]
fn usize_parsing_accepts_digits_only() {
    assert_eq!(parse_usize("0"), Some(0));
    assert_eq!(parse_usize("42"), Some(42));
    assert_eq!(parse_usize(""), None);
    assert_eq!(parse_usize("4x2"), None);
    assert_eq!(parse_usize("-3"), None);
    assert_eq!(parse_usize("99999999999999999999999999"), None);
}

#[test]
fn core_labels_resolve_to_indices() {
    assert_eq!(label_core_index("Core 3"), Some(3));
    assert_eq!(label_core_index("coretemp Core 11"), Some(11));
    assert_eq!(label_core_index("CORE 0"), Some(0));
    assert_eq!(label_core_index("Package id 0"), None);
    assert_eq!(label_core_index("Core"), None);
    assert_eq!(label_core_index("Core two"), None);
}
