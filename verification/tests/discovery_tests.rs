use netmapper::discovery::{ping_ip_list, PingOutcome};
use netmapper::icmp::EchoReplyInfo;
use netmapper::net::IpAddress;
use netmapper::status::StatusMessage;
use netmapper::topology::{NetworkTopology, NetworkTopologyEdge, NetworkTopologyNode};

fn v4(bits: u32) -> IpAddress {
    IpAddress::V4 { bits }
}

fn reply(addr: IpAddress, icmp_type: u8) -> EchoReplyInfo {
    EchoReplyInfo {
        addr,
        rtt_ms: 1,
        identifier: 7,
        icmp_code: 0,
        icmp_type,
        raw_packet: vec![],
        raw_payload: vec![],
        checksum: 0,
    }
}

fn topo_with_localhost() -> (NetworkTopology, u32) {
    let mut topo = NetworkTopology::new();
    let local = NetworkTopologyNode::new_localhost(
        v4(0xC0A8_0064),
        "This is the current pc.".to_string(),
        Some("me".to_string()),
    );
    let lid = topo.add_node(local).unwrap();
    (topo, lid)
}

#[test]
fn discover_empty_input_logs_one_info() {
    let (job, msgs) = ping_ip_list(vec![], 500, 10, true, false);
    assert!(job.is_none());
    assert_eq!(msgs.len(), 1);
    match &msgs[0] {
        StatusMessage::Info(t) => {
            assert_eq!(t, "Didn't receive any ips to ping. Not performing ping.")
        }
        _ => panic!("expected an informational message"),
    }
}

#[test]
fn discover_start_counts_hosts() {
    let (job, msgs) = ping_ip_list(vec![v4(1), v4(2)], 500, 10, false, false);
    assert!(job.is_some());
    assert_eq!(msgs.len(), 1);
    match &msgs[0] {
        StatusMessage::Info(t) => assert_eq!(t, "Initiating ip ping against 2 hosts."),
        _ => panic!("expected an informational message"),
    }
}

#[test]
fn add_node_rejects_duplicate_address() {
    let mut topo = NetworkTopology::new();
    let ip = v4(0xC0A8_0001);
    let first = topo.add_node(NetworkTopologyNode::new(ip, String::new(), None));
    assert!(first.is_some());
    let second = topo.add_node(NetworkTopologyNode::new(ip, "again".to_string(), None));
    assert!(second.is_none());
    assert!(topo.get_node_by_ip(ip).is_some());
}

#[test]
fn probe_reply_creates_node_and_edge() {
    // Probing 127.0.0.1 with no prior node: one reachable node appears and,
    // since a local node exists, one edge from it.
    let (mut topo, lid) = topo_with_localhost();
    let target = v4(0x7F00_0001);
    assert!(topo.get_node_by_ip(target).is_none());

    let (job, _) = ping_ip_list(vec![target], 500, 10, false, false);
    let mut job = job.unwrap();
    job.begin(&mut topo);
    assert_eq!(job.next_target(), Some(target));
    let msgs = job.on_ping_result(&mut topo, PingOutcome::Reply(reply(target, 0)));
    assert_eq!(msgs.len(), 1);
    match &msgs[0] {
        StatusMessage::Info(t) => assert_eq!(t, "127.0.0.1 is reachable"),
        _ => panic!("expected an informational message"),
    }

    let (tid, node) = topo.get_node_by_ip(target).unwrap();
    assert_eq!(node.ip, target);
    assert!(!node.is_localhost);
    assert!(topo.contains_edge(lid, tid));
    let done = job.finish(&mut topo);
    assert_eq!(done.len(), 1);
    assert!(topo.contains_edge(lid, tid));
}

#[test]
fn prune_removes_edges_of_silent_hosts() {
    let (mut topo, lid) = topo_with_localhost();
    let quiet = v4(0xC0A8_0002);
    let qid = topo
        .add_node(NetworkTopologyNode::new(quiet, String::new(), None))
        .unwrap();
    topo.add_edge(lid, qid, NetworkTopologyEdge::default());
    assert!(topo.contains_edge(lid, qid));

    let loud = v4(0xC0A8_0003);
    let (job, _) = ping_ip_list(vec![loud, quiet], 500, 10, true, false);
    let mut job = job.unwrap();
    job.begin(&mut topo);
    job.on_ping_result(&mut topo, PingOutcome::Reply(reply(loud, 0)));
    job.on_ping_result(&mut topo, PingOutcome::TimedOut);
    let msgs = job.finish(&mut topo);
    assert_eq!(msgs.len(), 2);
    match &msgs[1] {
        StatusMessage::Info(t) => assert_eq!(t, "Finished scanning. Found 1 reachable IPs"),
        _ => panic!("expected an informational message"),
    }

    let (loud_id, _) = topo.get_node_by_ip(loud).unwrap();
    assert!(topo.contains_edge(lid, loud_id));
    assert!(!topo.contains_edge(lid, qid));
}

#[test]
fn reset_clears_edges_before_probing() {
    // Even when zero addresses succeed, reset_edges removes every prior
    // outgoing edge of the local node.
    let (mut topo, lid) = topo_with_localhost();
    let old = v4(0xC0A8_0005);
    let oid = topo
        .add_node(NetworkTopologyNode::new(old, String::new(), None))
        .unwrap();
    topo.add_edge(lid, oid, NetworkTopologyEdge::default());

    let (job, _) = ping_ip_list(vec![v4(0xC0A8_0009)], 500, 10, false, true);
    let mut job = job.unwrap();
    job.begin(&mut topo);
    assert!(!topo.contains_edge(lid, oid));
    job.on_ping_result(&mut topo, PingOutcome::TimedOut);
    job.finish(&mut topo);
    assert!(!topo.contains_edge(lid, oid));
}

#[test]
fn transport_error_is_logged_as_error() {
    let (mut topo, _) = topo_with_localhost();
    let ip = v4(0xC0A8_0007);
    let (job, _) = ping_ip_list(vec![ip], 500, 10, false, false);
    let mut job = job.unwrap();
    job.begin(&mut topo);
    let msgs = job.on_ping_result(
        &mut topo,
        PingOutcome::TransportError("no raw socket".to_string()),
    );
    assert_eq!(msgs.len(), 1);
    match &msgs[0] {
        StatusMessage::Error(t) => {
            assert_eq!(t, "send_icmp_echo_request_ping returned an error => no raw socket")
        }
        _ => panic!("expected an error message"),
    }
    assert!(topo.get_node_by_ip(ip).is_none());
}

#[test]
fn unreachable_and_odd_replies_warn() {
    let (mut topo, _) = topo_with_localhost();
    let a = v4(0x0A00_0001);
    let b = v4(0x0A00_0002);
    let (job, _) = ping_ip_list(vec![a, b], 500, 10, false, false);
    let mut job = job.unwrap();
    job.begin(&mut topo);
    let m1 = job.on_ping_result(&mut topo, PingOutcome::Reply(reply(a, 3)));
    match &m1[0] {
        StatusMessage::Warn(t) => assert_eq!(t, "10.0.0.1 is unreachable"),
        _ => panic!("expected a warning"),
    }
    let m2 = job.on_ping_result(&mut topo, PingOutcome::Reply(reply(b, 11)));
    match &m2[0] {
        StatusMessage::Warn(t) => assert_eq!(
            t,
            "10.0.0.2 ping returned { adr \"10.0.0.2\" , icmp type \"11\" , icmp code \"0\" }. Likely unreacheable."
        ),
        _ => panic!("expected a warning"),
    }
    assert!(topo.get_node_by_ip(a).is_none());
    assert!(topo.get_node_by_ip(b).is_none());
}

#[test]
fn discovery_without_local_node_adds_no_edges() {
    let mut topo = NetworkTopology::new();
    let ip = v4(0x0A00_0009);
    let (job, _) = ping_ip_list(vec![ip], 500, 10, true, true);
    let mut job = job.unwrap();
    job.begin(&mut topo);
    job.on_ping_result(&mut topo, PingOutcome::Reply(reply(ip, 0)));
    job.finish(&mut topo);
    assert!(topo.get_node_by_ip(ip).is_some());
}
