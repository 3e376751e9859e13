use netmapper::icmp::{
    build_echo_request, create_icmp_echo_request_packet, parse_echo_reply, ping_poll_step,
    EchoReplyInfo, PingPollDecision, ICMP_SIZE,
};
use netmapper::net::{expand_ip_range, IpAddress};
use netmapper::resolver::update_hostname_list;
use netmapper::status::{flush_batch, log_to_status_generic, StatusInfo, StatusMessage};
use netmapper::textfmt::{ip_to_string, ports_to_dec_list, u64_to_dec_string, u64_to_hex_string};
use netmapper::topology::{NetworkTopology, NetworkTopologyEdge, NetworkTopologyNode};
use netmapper::ui_support::{
    add_localhost_pc, default_tabs, program_projects_dir, program_root_dir, remove_open_tab,
    AddNewDeviceWindowState, GenericInfoWindowState, IpInputType, ScanIpRangeWindowState,
    WorkspaceTab,
};

fn v4(bits: u32) -> IpAddress {
    IpAddress::V4 { bits }
}

/// The internet checksum over 16-bit big-endian words, with word
/// `skipword` left out, computed here independently of the library.
fn reference_checksum(data: &[u8], skipword: usize) -> u16 {
    let mut sum: u32 = 0;
    let mut i = 0;
    while i < data.len() {
        if i / 2 != skipword {
            let hi = data[i] as u32;
            let lo = if i + 1 < data.len() { data[i + 1] as u32 } else { 0 };
            sum += (hi << 8) | lo;
        }
        i += 2;
    }
    while sum >> 16 != 0 {
        sum = (sum >> 16) + (sum & 0xFFFF);
    }
    !(sum as u16)
}

#[test]
fn echo_request_layout_and_checksum() {
    let packet = build_echo_request(0x1234);
    assert_eq!(packet.len(), ICMP_SIZE);
    assert_eq!(packet[0], 8);
    assert_eq!(packet[1], 0);
    assert_eq!(packet[4], 0x12);
    assert_eq!(packet[5], 0x34);
    assert_eq!(packet[6], 0);
    assert_eq!(packet[7], 1);
    assert!(packet[8..].iter().all(|b| *b == 0));
    let expected = reference_checksum(&packet, 1);
    assert_eq!(((packet[2] as u16) << 8) | packet[3] as u16, expected);

    let fresh = create_icmp_echo_request_packet();
    assert_eq!(fresh.len(), ICMP_SIZE);
    assert_eq!(fresh[0], 8);
    let expected = reference_checksum(&fresh, 1);
    assert_eq!(((fresh[2] as u16) << 8) | fresh[3] as u16, expected);
}

#[test]
fn echo_reply_parsing_reads_the_header() {
    let packet = vec![0u8, 0, 0xAB, 0xCD, 0x12, 0x34, 0, 1, 9, 9];
    let info = parse_echo_reply(v4(0x7F00_0001), 3, &packet).unwrap();
    assert_eq!(info.icmp_type, 0);
    assert_eq!(info.icmp_code, 0);
    assert_eq!(info.checksum, 0xABCD);
    assert_eq!(info.identifier, 0x1234);
    assert_eq!(info.raw_packet, packet);
    assert_eq!(info.raw_payload, vec![9, 9]);
    assert_eq!(info.rtt_ms, 3);

    let short = vec![0u8, 0, 0];
    assert!(parse_echo_reply(v4(1), 0, &short).is_none());
}

#[test]
fn poll_step_decides_like_the_probe_loop() {
    match ping_poll_step(false, None, Some("denied".to_string()), 0, 500) {
        PingPollDecision::Fail(e) => assert_eq!(e, "denied"),
        _ => panic!("expected a failure"),
    }
    let rep = EchoReplyInfo {
        addr: v4(1),
        rtt_ms: 1,
        identifier: 1,
        icmp_code: 0,
        icmp_type: 0,
        raw_packet: vec![],
        raw_payload: vec![],
        checksum: 0,
    };
    match ping_poll_step(true, Some(rep), None, 10, 500) {
        PingPollDecision::Finish(Some(r)) => assert_eq!(r.identifier, 1),
        _ => panic!("expected the probe to finish with a reply"),
    }
    match ping_poll_step(false, None, None, 501, 500) {
        PingPollDecision::Finish(None) => {}
        _ => panic!("expected a timeout finish"),
    }
    match ping_poll_step(false, None, None, 499, 500) {
        PingPollDecision::KeepWaiting => {}
        _ => panic!("expected to keep waiting"),
    }
}

#[test]
fn addresses_render_and_ranges_expand() {
    assert_eq!(ip_to_string(v4(0xC0A8_0001)), "192.168.0.1");
    assert_eq!(ip_to_string(v4(0)), "0.0.0.0");
    assert_eq!(ip_to_string(IpAddress::V6 { bits: 1 }), "0:0:0:0:0:0:0:1");
    assert_eq!(
        ip_to_string(IpAddress::V6 {
            bits: 0x2001_0db8_0000_0000_0000_0000_0000_00ff_u128
        }),
        "2001:db8:0:0:0:0:0:ff"
    );
    assert_eq!(u64_to_dec_string(0), "0");
    assert_eq!(u64_to_dec_string(90210), "90210");
    assert_eq!(u64_to_hex_string(255), "ff");
    assert_eq!(ports_to_dec_list(&vec![22, 80, 443]), "22, 80, 443");
    assert_eq!(ports_to_dec_list(&vec![]), "");

    let range = expand_ip_range(v4(0xC0A8_0001), v4(0xC0A8_0003));
    assert_eq!(range.len(), 3);
    assert_eq!(range[0], v4(0xC0A8_0001));
    assert_eq!(range[2], v4(0xC0A8_0003));
    assert!(expand_ip_range(v4(5), v4(2)).is_empty());
}

#[test]
fn status_reporter_batches_and_flushes() {
    let mut status = StatusInfo::default();
    log_to_status_generic(
        &mut status,
        "12:00:00.000",
        StatusMessage::Info("hello".to_string()),
    );
    assert_eq!(status.text_to_batch, "12:00:00.000: hello\n");
    assert_eq!(status.text_to_render, "");

    flush_batch(&mut status);
    assert_eq!(status.text_to_batch, "");
    assert_eq!(status.text_to_render, "12:00:00.000: hello\n");
    assert!(status.scroll_on_next_render);

    status.scroll_on_next_render = false;
    flush_batch(&mut status);
    assert!(!status.scroll_on_next_render);
    assert_eq!(status.text_to_render, "12:00:00.000: hello\n");
}

#[test]
fn status_render_buffer_truncates_past_the_cap() {
    let mut status = StatusInfo::default();
    status.text_to_render = "x".repeat(80_000);
    log_to_status_generic(
        &mut status,
        "t",
        StatusMessage::Warn("overflow".to_string()),
    );
    flush_batch(&mut status);
    assert_eq!(status.text_to_render, "t: overflow\n");
}

#[test]
fn resolver_filters_targets_and_updates_hostnames() {
    let mut topo = NetworkTopology::new();
    let local = NetworkTopologyNode::new_localhost(v4(1), String::new(), None);
    topo.add_node(local).unwrap();
    let a = v4(0x0A00_0001);
    let b = v4(0x0A00_0002);
    topo.add_node(NetworkTopologyNode::new(a, String::new(), None))
        .unwrap();
    topo.add_node(NetworkTopologyNode::new(b, String::new(), None))
        .unwrap();

    let (job, msgs) = update_hostname_list(&topo, vec![b]);
    let mut job = job.unwrap();
    match &msgs[0] {
        StatusMessage::Info(t) => assert_eq!(t, "Initiating addr lookup against 1 hosts."),
        _ => panic!("expected an informational message"),
    }
    let (next, announce) = job.next_lookup();
    assert_eq!(next.map(|t| t.1), Some(b));
    assert_eq!(announce.len(), 1);

    let msgs = job.on_lookup_result(&mut topo, Some("printer".to_string()));
    match &msgs[0] {
        StatusMessage::Info(t) => assert_eq!(t, "Hostname for 10.0.0.2 is \"printer\""),
        _ => panic!("expected an informational message"),
    }
    let (_, node) = topo.get_node_by_ip(b).unwrap();
    assert_eq!(node.hostname, "printer");
    let (_, untouched) = topo.get_node_by_ip(a).unwrap();
    assert_eq!(untouched.hostname, "");
    assert_eq!(job.finish().len(), 1);

    let (none_job, msgs) = update_hostname_list(&topo, vec![v4(0xDEAD)]);
    assert!(none_job.is_none());
    match &msgs[0] {
        StatusMessage::Info(t) => assert_eq!(
            t,
            "Didn't find intercept of ips and nodes in graph. Not performing hostname resolution against graph."
        ),
        _ => panic!("expected an informational message"),
    }
}

#[test]
fn resolver_failed_lookup_leaves_the_node_alone() {
    let mut topo = NetworkTopology::new();
    let a = v4(0x0A00_0005);
    topo.add_node(NetworkTopologyNode::new(a, String::new(), None))
        .unwrap();
    let (job, _) = update_hostname_list(&topo, vec![a]);
    let mut job = job.unwrap();
    let msgs = job.on_lookup_result(&mut topo, None);
    match &msgs[0] {
        StatusMessage::Info(t) => assert_eq!(t, "Unable to determine hostname for 10.0.0.5"),
        _ => panic!("expected an informational message"),
    }
    let (_, node) = topo.get_node_by_ip(a).unwrap();
    assert_eq!(node.hostname, "");
}

#[test]
fn node_labels_carry_the_hostname() {
    let node = NetworkTopologyNode::new(v4(0xC0A8_0001), String::new(), Some("nas".to_string()));
    assert_eq!(
        NetworkTopology::generate_node_label(&node),
        "192.168.0.1\nnas"
    );
    let bare = NetworkTopologyNode::new(v4(0xC0A8_0001), String::new(), None);
    assert_eq!(NetworkTopology::generate_node_label(&bare), "192.168.0.1");
}

#[test]
fn info_window_shows_and_hides() {
    let mut w = GenericInfoWindowState::new("Cannot add this computer");
    assert!(!w.open);
    w.show("something went wrong".to_string());
    assert!(w.open);
    assert_eq!(w.text, "something went wrong");
    w.hide_window();
    assert!(!w.open);
    assert_eq!(w.text, "");
    assert_eq!(w.title, "Cannot add this computer");
}

#[test]
fn default_tabs_and_tab_removal() {
    let tabs = default_tabs();
    assert_eq!(tabs.len(), 11);
    assert_eq!(tabs[0].id, "meta_tab");
    assert_eq!(tabs[10].title, "Terminal (1)");

    let mut open = vec![
        WorkspaceTab::new("a", "A"),
        WorkspaceTab::new("b", "B"),
        WorkspaceTab::new("a", "A2"),
    ];
    assert!(remove_open_tab(&mut open, "a"));
    assert_eq!(open.len(), 2);
    assert_eq!(open[0].id, "b");
    assert_eq!(open[1].title, "A2");
    assert!(!remove_open_tab(&mut open, "zzz"));
    assert_eq!(open.len(), 2);
    assert_eq!(WorkspaceTab::new("x", "X"), WorkspaceTab::new("x", "X"));
}

#[test]
fn window_defaults_match_the_forms() {
    let scan = ScanIpRangeWindowState::default();
    assert!(!scan.open);
    assert_eq!(scan.input_type, IpInputType::Range);
    assert_eq!(scan.range_ip_from, "192.168.0.0");
    assert_eq!(scan.range_ip_to, "192.168.0.255");
    assert_eq!(scan.cidr_notation, "192.168.0.0/24");
    assert_eq!(scan.manual_ips, vec!["192.168.0.1".to_string()]);
    assert_eq!(scan.settings_ping_timeout_ms, "500");
    assert_eq!(scan.settings_ping_checkup_ms, "10");
    assert!(scan.settings_exlude_localhost);
    assert!(scan.settings_remove_connectivity_status_when_unreachable);
    assert!(!scan.settings_reset_connectivity_status);

    let add = AddNewDeviceWindowState::default();
    assert!(!add.open);
    assert_eq!(add.ip, "");
    assert!(!add.ping_after_creation);
}

#[test]
fn project_directories_hang_off_home() {
    assert_eq!(program_root_dir("/home/me"), "/home/me/.config/teef/");
    assert_eq!(
        program_projects_dir("/home/me"),
        "/home/me/.config/teef/projects/"
    );
}

#[test]
fn adding_the_local_machine_guards_its_cases() {
    let mut topo = NetworkTopology::new();
    let err = add_localhost_pc(&mut topo, None).unwrap();
    assert!(err.starts_with("Unable to get information required to create localhost."));

    let me = NetworkTopologyNode::new_localhost(v4(0xC0A8_0064), String::new(), None);
    assert!(add_localhost_pc(&mut topo, Some(me)).is_none());
    assert!(topo.get_localhosts_node().is_some());

    let me2 = NetworkTopologyNode::new_localhost(v4(0xC0A8_0065), String::new(), None);
    let err = add_localhost_pc(&mut topo, Some(me2)).unwrap();
    assert!(err.contains("since it already exists"));

    let mut topo2 = NetworkTopology::new();
    topo2
        .add_node(NetworkTopologyNode::new(v4(0xC0A8_0064), String::new(), None))
        .unwrap();
    let me3 = NetworkTopologyNode::new_localhost(v4(0xC0A8_0064), String::new(), None);
    let err = add_localhost_pc(&mut topo2, Some(me3)).unwrap();
    assert_eq!(
        err,
        "Unable to create new instance of this computer, since your IP (192.168.0.100) already exists as a node. Before creating a new one, please make sure to remove the old instance."
    );
}

#[test]
fn removing_a_node_cascades_its_edges() {
    let mut topo = NetworkTopology::new();
    let a = topo
        .add_node(NetworkTopologyNode::new(v4(1), String::new(), None))
        .unwrap();
    let b = topo
        .add_node(NetworkTopologyNode::new(v4(2), String::new(), None))
        .unwrap();
    topo.add_edge(a, b, NetworkTopologyEdge::default());
    assert!(topo.contains_edge(a, b));
    topo.remove_node(b);
    assert!(!topo.contains_edge(a, b));
    assert!(topo.get_node_by_ip(v4(2)).is_none());
    assert!(topo.get_node_by_ip(v4(1)).is_some());

    let ips = topo.get_all_ips_except_localhost();
    assert_eq!(ips, vec![v4(1)]);
}
