use netmapper::net::IpAddress;
use netmapper::portscan::{
    expand_port_range, most_common_ports, port_fuzzing_commands, read_everything_step,
    recognize_port_service, scap_ip_ports, socket_buffer_to_string, PortProbeOutcome,
    ScanIpPortsConfig, SocketReadEvent, SocketReadState, SocketReadStep,
};
use netmapper::status::StatusMessage;
use netmapper::topology::{NetworkTopology, NetworkTopologyNode};

fn v4(bits: u32) -> IpAddress {
    IpAddress::V4 { bits }
}

fn plain_config() -> ScanIpPortsConfig {
    ScanIpPortsConfig {
        connection_timeout_ms: 50,
        should_banner_grab: false,
        should_fuzz: false,
        read_write_timeout_ms: 250,
    }
}

fn target_node(topo: &mut NetworkTopology, ip: IpAddress) -> u32 {
    topo.add_node(NetworkTopologyNode::new(ip, String::new(), None))
        .unwrap()
}

#[test]
fn scan_records_exactly_connected_ports_in_order() {
    // Scanning [22, 9999] where only 22 accepts connections yields a port
    // list of length 1 containing port 22.
    let mut topo = NetworkTopology::new();
    let ip = v4(0x0A00_0020);
    let id = target_node(&mut topo, ip);

    let mut job = scap_ip_ports(ip, vec![22, 9999], id, plain_config());
    assert_eq!(job.next_port(), Some(22));
    let m1 = job.on_port_result(PortProbeOutcome::Connected {
        banner_raw: None,
        fuzz_responses: vec![],
    });
    assert_eq!(m1.len(), 1);
    match &m1[0] {
        StatusMessage::Info(t) => {
            assert_eq!(t, "Port 22 is reachable, possible service guess: ssh.")
        }
        _ => panic!("expected an informational message"),
    }
    assert_eq!(job.next_port(), Some(9999));
    let m2 = job.on_port_result(PortProbeOutcome::ConnectFailed);
    match &m2[0] {
        StatusMessage::Info(t) => assert_eq!(t, "Port 9999 is unreachable."),
        _ => panic!("expected an informational message"),
    }
    assert_eq!(job.next_port(), None);

    let msgs = job.finalize(&mut topo);
    assert_eq!(msgs.len(), 2);
    match &msgs[0] {
        StatusMessage::Info(t) => assert_eq!(
            t,
            "Finished scanning. Found 1 reachable ports (22). Proceeding to update the node..."
        ),
        _ => panic!("expected an informational message"),
    }
    match &msgs[1] {
        StatusMessage::Info(t) => assert_eq!(t, "Successfully updated the data on the node."),
        _ => panic!("expected an informational message"),
    }

    let (_, node) = topo.get_node_by_ip(ip).unwrap();
    assert_eq!(node.opened_ports.len(), 1);
    assert_eq!(node.opened_ports[0].number, 22);
    assert_eq!(node.opened_ports[0].possible_service_name, "ssh");
    assert_eq!(
        node.opened_ports[0].possible_service_usefull_info.as_deref(),
        Some("Secure Shell remote login")
    );
    assert!(node.opened_ports[0].banner.is_none());
    assert!(node.opened_ports[0].fuzzing_results.is_none());
}

#[test]
fn deleting_node_mid_scan_warns_once_and_writes_nothing() {
    let mut topo = NetworkTopology::new();
    let ip = v4(0x0A00_0021);
    let id = target_node(&mut topo, ip);

    let mut job = scap_ip_ports(ip, vec![80], id, plain_config());
    job.on_port_result(PortProbeOutcome::Connected {
        banner_raw: None,
        fuzz_responses: vec![],
    });
    topo.remove_node(id);

    let msgs = job.finalize(&mut topo);
    assert_eq!(msgs.len(), 2);
    let warnings = msgs
        .iter()
        .filter(|m| matches!(m, StatusMessage::Warn(_)))
        .count();
    assert_eq!(warnings, 1);
    match &msgs[1] {
        StatusMessage::Warn(t) => assert_eq!(
            t,
            "Unable to update the node after port scan. The results got destroyed. Sorry :("
        ),
        _ => panic!("expected a warning"),
    }
    assert!(topo.get_node_by_ip(ip).is_none());
}

#[test]
fn banner_and_fuzz_results_are_recorded() {
    let mut topo = NetworkTopology::new();
    let ip = v4(0x0A00_0022);
    let id = target_node(&mut topo, ip);
    let config = ScanIpPortsConfig {
        connection_timeout_ms: 50,
        should_banner_grab: true,
        should_fuzz: true,
        read_write_timeout_ms: 250,
    };

    let mut job = scap_ip_ports(ip, vec![2222], id, config);
    let msgs = job.on_port_result(PortProbeOutcome::Connected {
        banner_raw: Some(b"SSH-2.0".to_vec()),
        fuzz_responses: vec![
            (b"info\n".to_vec(), b"".to_vec()),
            (b"help\n".to_vec(), b"ok".to_vec()),
        ],
    });
    assert_eq!(msgs.len(), 3);
    match &msgs[1] {
        StatusMessage::Info(t) => assert_eq!(t, "Port 2222 - banner grab result: SSH-2.0"),
        _ => panic!("expected an informational message"),
    }
    match &msgs[2] {
        StatusMessage::Info(t) => assert_eq!(t, "Port 2222 - fuzzing results: 1"),
        _ => panic!("expected an informational message"),
    }

    job.finalize(&mut topo);
    let (_, node) = topo.get_node_by_ip(ip).unwrap();
    assert_eq!(node.opened_ports.len(), 1);
    let port = &node.opened_ports[0];
    assert_eq!(port.banner.as_deref(), Some("SSH-2.0"));
    let fuzz = port.fuzzing_results.as_ref().unwrap();
    assert_eq!(fuzz.len(), 1);
    assert_eq!(fuzz[0].command, "help\n");
    assert_eq!(fuzz[0].result, "ok");
    assert_eq!(fuzz[0].result_raw, b"ok".to_vec());
    assert_eq!(port.possible_service_name, "unknown");
    assert!(port.possible_service_usefull_info.is_none());
}

#[test]
fn service_table_maps_known_and_unknown_ports() {
    let r = recognize_port_service(&443, &None, &None);
    assert_eq!(r.0, "https");
    assert_eq!(r.1.as_deref(), Some("Web server over TLS"));
    let r = recognize_port_service(&9999, &None, &None);
    assert_eq!(r.0, "unknown");
    assert!(r.1.is_none());
}

#[test]
fn fuzz_commands_and_common_ports_are_fixed() {
    let commands = port_fuzzing_commands();
    assert_eq!(commands.len(), 3);
    assert_eq!(commands[0], b"info\n".to_vec());
    assert_eq!(commands[1], b"help\n".to_vec());
    assert_eq!(commands[2], b"version\n".to_vec());
    assert_eq!(most_common_ports(), vec![20, 21, 22]);
}

#[test]
fn port_ranges_expand_inclusively() {
    assert_eq!(expand_port_range(1, 4), vec![1, 2, 3, 4]);
    assert_eq!(expand_port_range(80, 80), vec![80]);
    assert!(expand_port_range(9, 3).is_empty());
    let full = expand_port_range(65530, 65535);
    assert_eq!(full.len(), 6);
    assert_eq!(full[5], 65535);
}

#[test]
fn socket_buffer_decodes_bytes_as_chars() {
    assert_eq!(socket_buffer_to_string(b"Hi there"), "Hi there");
    assert_eq!(socket_buffer_to_string(&[0xFF]), "\u{ff}");
    assert_eq!(socket_buffer_to_string(&[]), "");
}

#[test]
fn read_policy_accumulates_until_idle_twice_or_end() {
    let start = SocketReadState {
        data: Vec::new(),
        potentially_finished: false,
    };
    let step = read_everything_step(start, SocketReadEvent::Bytes(b"ab".to_vec()));
    let state = match step {
        SocketReadStep::Continue(s) => s,
        _ => panic!("expected to continue"),
    };
    assert_eq!(state.data, b"ab".to_vec());

    let step = read_everything_step(state, SocketReadEvent::WouldBlock);
    let state = match step {
        SocketReadStep::SleepThenContinue(s) => s,
        _ => panic!("expected a sleep"),
    };
    assert!(state.potentially_finished);

    let step = read_everything_step(state, SocketReadEvent::WouldBlock);
    match step {
        SocketReadStep::Done(d) => assert_eq!(d, b"ab".to_vec()),
        _ => panic!("expected the read to end"),
    }

    let fresh = SocketReadState {
        data: b"x".to_vec(),
        potentially_finished: false,
    };
    match read_everything_step(fresh, SocketReadEvent::Bytes(Vec::new())) {
        SocketReadStep::Done(d) => assert_eq!(d, b"x".to_vec()),
        _ => panic!("expected the read to end"),
    }

    let fresh = SocketReadState {
        data: Vec::new(),
        potentially_finished: false,
    };
    match read_everything_step(fresh, SocketReadEvent::Failed("broken pipe".to_string())) {
        SocketReadStep::Fail(e) => assert_eq!(e, "broken pipe"),
        _ => panic!("expected a failure"),
    }
}
