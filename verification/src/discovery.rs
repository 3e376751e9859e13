//! The host discovery scanner.
//!
//! One discovery job probes a batch of addresses in input order, keeps the
//! topology graph in step — a node for every host that answered, an edge
//! from the local machine to it — and finally prunes the edges of the
//! hosts that never answered, when asked to.  The probing itself (raw
//! sockets, the listener thread, the sleep between polls) runs outside the
//! library; each probe's outcome is handed back in as a [`PingOutcome`]
//! and every graph decision here is verified.

use vstd::prelude::*;
use vstd::string::StringExecFns;
use crate::icmp::{EchoReplyInfo, ICMP_TYPE_DEST_UNREACHABLE, ICMP_TYPE_ECHO_REPLY};
use crate::net::IpAddress;
use crate::status::StatusMessage;
use crate::textfmt::{dec_seq, ip_string, ip_to_string, u64_to_dec_string};
use crate::topology::{NetworkTopology, NetworkTopologyEdge, NetworkTopologyNode};

verus! {

/// What one reachability probe came back with.
#[derive(Debug)]
pub enum PingOutcome {
    /// The transport could not be opened or used; the text tells why.
    TransportError(String),
    /// No reply within the probe's timeout.
    TimedOut,
    /// The first reply that the listener caught.
    Reply(EchoReplyInfo),
}

/// The log line when a discovery request names no addresses.
pub open spec fn msg_no_ips_text() -> Seq<char> {
    "Didn't receive any ips to ping. Not performing ping."@
}

/// The log line that opens a discovery run over `n` hosts.
pub open spec fn msg_start_text(n: int) -> Seq<char> {
    "Initiating ip ping against "@ + dec_seq(n) + " hosts."@
}

/// The log line for a probe that failed in the transport.
pub open spec fn msg_transport_error_text(e: Seq<char>) -> Seq<char> {
    "send_icmp_echo_request_ping returned an error => "@ + e
}

/// The log line for a probe that timed out.
pub open spec fn msg_timed_out_text(ip: IpAddress) -> Seq<char> {
    ip_string(ip) + " ping timed out"@
}

/// The log line for an explicit destination-unreachable answer.
pub open spec fn msg_unreachable_text(ip: IpAddress) -> Seq<char> {
    ip_string(ip) + " is unreachable"@
}

/// The log line for a reply of an unexpected ICMP type.
pub open spec fn msg_odd_reply_text(ip: IpAddress, from: IpAddress, t: u8, c: u8) -> Seq<char> {
    ip_string(ip) + " ping returned { adr \""@ + ip_string(from) + "\" , icmp type \""@ + dec_seq(
        t as int,
    ) + "\" , icmp code \""@ + dec_seq(c as int) + "\" }. Likely unreacheable."@
}

/// The log line for a host that answered the probe.
pub open spec fn msg_reachable_text(ip: IpAddress) -> Seq<char> {
    ip_string(ip) + " is reachable"@
}

/// The log line that opens the pruning pass.
pub open spec fn msg_removing_text() -> Seq<char> {
    "Removing connectivity status to unreachable IPs"@
}

/// The log line that closes a run, counting the reachable hosts.
pub open spec fn msg_finished_text(n: int) -> Seq<char> {
    "Finished scanning. Found "@ + dec_seq(n) + " reachable IPs"@
}

fn build_msg_start(n: u64) -> (r: String)
    ensures
        r@ == msg_start_text(n as int),
{
    let mut s = String::from_str("Initiating ip ping against ");
    s.append(u64_to_dec_string(n).as_str());
    s.append(" hosts.");
    proof {
        assert(s@ =~= msg_start_text(n as int));
    }
    s
}

fn build_msg_transport_error(e: &str) -> (r: String)
    ensures
        r@ == msg_transport_error_text(e@),
{
    let mut s = String::from_str("send_icmp_echo_request_ping returned an error => ");
    s.append(e);
    proof {
        assert(s@ =~= msg_transport_error_text(e@));
    }
    s
}

fn build_msg_timed_out(ip: IpAddress) -> (r: String)
    ensures
        r@ == msg_timed_out_text(ip),
{
    let mut s = ip_to_string(ip);
    s.append(" ping timed out");
    proof {
        assert(s@ =~= msg_timed_out_text(ip));
    }
    s
}

fn build_msg_unreachable(ip: IpAddress) -> (r: String)
    ensures
        r@ == msg_unreachable_text(ip),
{
    let mut s = ip_to_string(ip);
    s.append(" is unreachable");
    proof {
        assert(s@ =~= msg_unreachable_text(ip));
    }
    s
}

fn build_msg_odd_reply(ip: IpAddress, from: IpAddress, t: u8, c: u8) -> (r: String)
    ensures
        r@ == msg_odd_reply_text(ip, from, t, c),
{
    let mut s = ip_to_string(ip);
    s.append(" ping returned { adr \"");
    s.append(ip_to_string(from).as_str());
    s.append("\" , icmp type \"");
    s.append(u64_to_dec_string(t as u64).as_str());
    s.append("\" , icmp code \"");
    s.append(u64_to_dec_string(c as u64).as_str());
    s.append("\" }. Likely unreacheable.");
    proof {
        assert(s@ =~= msg_odd_reply_text(ip, from, t, c));
    }
    s
}

fn build_msg_reachable(ip: IpAddress) -> (r: String)
    ensures
        r@ == msg_reachable_text(ip),
{
    let mut s = ip_to_string(ip);
    s.append(" is reachable");
    proof {
        assert(s@ =~= msg_reachable_text(ip));
    }
    s
}

fn build_msg_finished(n: u64) -> (r: String)
    ensures
        r@ == msg_finished_text(n as int),
{
    let mut s = String::from_str("Finished scanning. Found ");
    s.append(u64_to_dec_string(n).as_str());
    s.append(" reachable IPs");
    proof {
        assert(s@ =~= msg_finished_text(n as int));
    }
    s
}

/// True when no address appears twice.
pub open spec fn distinct_ips(s: Seq<IpAddress>) -> bool {
    forall|i: int, j: int| 0 <= i < j < s.len() ==> s[i] != s[j]
}

/// One discovery run: the addresses to probe, the probing position, what
/// answered and what did not, and the edge policy of the run.
pub struct DiscoveryJob {
    pub ips: Vec<IpAddress>,
    pub pos: usize,
    pub reachable: Vec<IpAddress>,
    pub unreachable: Vec<IpAddress>,
    pub ping_timeout_ms: u64,
    pub ping_checkup_ms: u64,
    pub remove_unreachable: bool,
    pub reset_edges: bool,
    pub localhost: Option<u32>,
    pub started: bool,
}

/// Two live entries carrying the same address are the same entry.
proof fn lemma_unique_entry(t: NetworkTopology, ip: IpAddress, id1: u32, id2: u32)
    requires
        t.wf(),
        t.id_has_ip(id1, ip),
        t.id_has_ip(id2, ip),
    ensures
        id1 == id2,
{
    let i1 = choose|i: int|
        0 <= i < t.hosts@.len() && (#[trigger] t.hosts@[i]).id == id1 && t.hosts@[i].node.ip == ip;
    let i2 = choose|i: int|
        0 <= i < t.hosts@.len() && (#[trigger] t.hosts@[i]).id == id2 && t.hosts@[i].node.ip == ip;
    if i1 < i2 {
        assert(false);
    }
    if i2 < i1 {
        assert(false);
    }
}

/// One live id carries one address.
proof fn lemma_unique_id(t: NetworkTopology, id: u32, ip1: IpAddress, ip2: IpAddress)
    requires
        t.wf(),
        t.id_has_ip(id, ip1),
        t.id_has_ip(id, ip2),
    ensures
        ip1 == ip2,
{
    let i1 = choose|i: int|
        0 <= i < t.hosts@.len() && (#[trigger] t.hosts@[i]).id == id && t.hosts@[i].node.ip == ip1;
    let i2 = choose|i: int|
        0 <= i < t.hosts@.len() && (#[trigger] t.hosts@[i]).id == id && t.hosts@[i].node.ip == ip2;
    if i1 < i2 {
        assert(false);
    }
    if i2 < i1 {
        assert(false);
    }
}

/// How one successful probe may extend the graph: hosts only appended,
/// edges only grown, and the only new edge runs from the local node to the
/// probed host.
pub open spec fn graph_extended(
    topo0: NetworkTopology,
    topo1: NetworkTopology,
    lopt: Option<u32>,
    target: u32,
) -> bool {
    &&& topo1.wf()
    &&& topo0.hosts@.len() <= topo1.hosts@.len()
    &&& forall|i: int|
        0 <= i < topo0.hosts@.len() ==> (#[trigger] topo1.hosts@[i]).id == topo0.hosts@[i].id
            && topo1.hosts@[i].node.ip == topo0.hosts@[i].node.ip
            && topo1.hosts@[i].node.is_localhost == topo0.hosts@[i].node.is_localhost
    &&& forall|a: u32, b: u32| topo0.has_edge(a, b) ==> topo1.has_edge(a, b)
    &&& forall|a: u32, b: u32|
        topo1.has_edge(a, b) ==> topo0.has_edge(a, b) || (lopt == Some(a) && b == target && a != b)
}

/// A step that marks the current address unreachable keeps the run's
/// invariant when the graph is untouched.
proof fn lemma_fail_step(pre: DiscoveryJob, post: DiscoveryJob, topo: NetworkTopology)
    requires
        pre.pos < pre.ips@.len(),
        pre.inv(topo),
        post.ips@ == pre.ips@,
        post.localhost == pre.localhost,
        post.reset_edges == pre.reset_edges,
        post.pos == pre.pos + 1,
        post.reachable@ == pre.reachable@,
        post.unreachable@ == pre.unreachable@.push(pre.ips@[pre.pos as int]),
    ensures
        post.inv(topo),
{
    let cur = pre.ips@[pre.pos as int];
    let oldtake = pre.ips@.take(pre.pos as int);
    let newtake = post.ips@.take(post.pos as int);
    assert(newtake =~= oldtake.push(cur));
    assert forall|x: IpAddress| oldtake.contains(x) implies newtake.contains(x) by {
        let j = choose|j: int| 0 <= j < oldtake.len() && oldtake[j] == x;
        assert(newtake[j] == x);
    }
    assert(newtake[pre.pos as int] == cur);
    assert(newtake.contains(cur));
    assert forall|x: IpAddress| post.unreachable@.contains(x) implies (pre.unreachable@.contains(x)
        || x == cur) by {
        let j = choose|j: int| 0 <= j < post.unreachable@.len() && post.unreachable@[j] == x;
        if j < pre.unreachable@.len() {
            assert(pre.unreachable@[j] == x);
        }
    }
    assert forall|x: IpAddress| pre.unreachable@.contains(x) implies post.unreachable@.contains(
        x,
    ) by {
        let j = choose|j: int| 0 <= j < pre.unreachable@.len() && pre.unreachable@[j] == x;
        assert(post.unreachable@[j] == x);
    }
    assert(post.unreachable@[pre.unreachable@.len() as int] == cur);
    assert(post.unreachable@.contains(cur));
    assert forall|j: int| 0 <= j < post.pos implies (post.reachable@.contains(
        #[trigger] post.ips@[j],
    ) || post.unreachable@.contains(post.ips@[j])) by {
        if j < pre.pos {
            assert(pre.reachable@.contains(pre.ips@[j]) || pre.unreachable@.contains(pre.ips@[j]));
        } else {
            assert(post.ips@[j] == cur);
        }
    }
    if distinct_ips(post.ips@) {
        assert forall|x: IpAddress| !(#[trigger] post.reachable@.contains(x)
            && post.unreachable@.contains(x)) by {
            if post.reachable@.contains(x) && post.unreachable@.contains(x) {
                if x == cur {
                    assert(oldtake.contains(cur));
                    let j = choose|j: int| 0 <= j < oldtake.len() && oldtake[j] == cur;
                    assert(pre.ips@[j] == cur);
                    assert(false);
                } else {
                    assert(pre.unreachable@.contains(x));
                    assert(false);
                }
            }
        }
    }
}

/// A step that marks the current address reachable keeps the run's
/// invariant when the graph only gained that host and its edge.
proof fn lemma_success_step(
    pre: DiscoveryJob,
    post: DiscoveryJob,
    topo0: NetworkTopology,
    topo1: NetworkTopology,
    target: u32,
)
    requires
        pre.pos < pre.ips@.len(),
        pre.inv(topo0),
        post.ips@ == pre.ips@,
        post.localhost == pre.localhost,
        post.reset_edges == pre.reset_edges,
        post.pos == pre.pos + 1,
        post.unreachable@ == pre.unreachable@,
        post.reachable@ == pre.reachable@.push(pre.ips@[pre.pos as int]),
        graph_extended(topo0, topo1, pre.localhost, target),
        topo1.id_has_ip(target, pre.ips@[pre.pos as int]),
        match pre.localhost {
            Some(l) => target == l || topo1.has_edge(l, target),
            None => true,
        },
    ensures
        post.inv(topo1),
{
    let cur = pre.ips@[pre.pos as int];
    let oldtake = pre.ips@.take(pre.pos as int);
    let newtake = post.ips@.take(post.pos as int);
    assert(newtake =~= oldtake.push(cur));
    assert forall|x: IpAddress| oldtake.contains(x) implies newtake.contains(x) by {
        let j = choose|j: int| 0 <= j < oldtake.len() && oldtake[j] == x;
        assert(newtake[j] == x);
    }
    assert(newtake[pre.pos as int] == cur);
    assert(newtake.contains(cur));
    assert forall|x: IpAddress| post.reachable@.contains(x) implies (pre.reachable@.contains(x)
        || x == cur) by {
        let j = choose|j: int| 0 <= j < post.reachable@.len() && post.reachable@[j] == x;
        if j < pre.reachable@.len() {
            assert(pre.reachable@[j] == x);
        }
    }
    assert forall|x: IpAddress| pre.reachable@.contains(x) implies post.reachable@.contains(x) by {
        let j = choose|j: int| 0 <= j < pre.reachable@.len() && pre.reachable@[j] == x;
        assert(post.reachable@[j] == x);
    }
    assert(post.reachable@[pre.reachable@.len() as int] == cur);
    assert(post.reachable@.contains(cur));
    // the local node stays marked
    match pre.localhost {
        Some(l) => {
            let i = choose|i: int|
                0 <= i < topo0.hosts@.len() && (#[trigger] topo0.hosts@[i]).id == l
                    && topo0.hosts@[i].node.is_localhost;
            assert(topo1.hosts@[i].id == l && topo1.hosts@[i].node.is_localhost);
            assert(topo1.localhost_id_is(l));
        },
        None => {},
    }
    // every already-reachable host keeps its node and edge
    assert forall|x: IpAddress| #[trigger] pre.reachable@.contains(x) implies topo1.has_ip(x) by {
        let i = choose|i: int|
            0 <= i < topo0.hosts@.len() && (#[trigger] topo0.hosts@[i]).node.ip == x;
        assert(topo1.hosts@[i].node.ip == x);
    }
    assert(topo1.has_ip(cur)) by {
        let i = choose|i: int|
            0 <= i < topo1.hosts@.len() && (#[trigger] topo1.hosts@[i]).id == target
                && topo1.hosts@[i].node.ip == cur;
        assert(topo1.hosts@[i].node.ip == cur);
    }
    match pre.localhost {
        Some(l) => {
            assert forall|x: IpAddress| #[trigger] post.reachable@.contains(x) implies exists|
                id: u32,
            |
                #[trigger] topo1.id_has_ip(id, x) && (id == l || topo1.has_edge(l, id)) by {
                if pre.reachable@.contains(x) {
                    let id0 = choose|id0: u32|
                        #[trigger] topo0.id_has_ip(id0, x) && (id0 == l || topo0.has_edge(l, id0));
                    let i = choose|i: int|
                        0 <= i < topo0.hosts@.len() && (#[trigger] topo0.hosts@[i]).id == id0
                            && topo0.hosts@[i].node.ip == x;
                    assert(topo1.hosts@[i].id == id0 && topo1.hosts@[i].node.ip == x);
                    assert(topo1.id_has_ip(id0, x));
                    assert(id0 == l || topo1.has_edge(l, id0));
                } else {
                    assert(x == cur);
                    assert(topo1.id_has_ip(target, x) && (target == l || topo1.has_edge(
                        l,
                        target,
                    )));
                }
            }
        },
        None => {},
    }
    assert forall|j: int| 0 <= j < post.pos implies (post.reachable@.contains(
        #[trigger] post.ips@[j],
    ) || post.unreachable@.contains(post.ips@[j])) by {
        if j < pre.pos {
            assert(pre.reachable@.contains(pre.ips@[j]) || pre.unreachable@.contains(pre.ips@[j]));
        } else {
            assert(post.ips@[j] == cur);
        }
    }
    if distinct_ips(post.ips@) {
        assert forall|x: IpAddress| !(#[trigger] post.reachable@.contains(x)
            && post.unreachable@.contains(x)) by {
            if post.reachable@.contains(x) && post.unreachable@.contains(x) {
                if x == cur {
                    assert(oldtake.contains(cur));
                    let j = choose|j: int| 0 <= j < oldtake.len() && oldtake[j] == cur;
                    assert(pre.ips@[j] == cur);
                    assert(false);
                } else {
                    assert(pre.reachable@.contains(x));
                    assert(false);
                }
            }
        }
    }
    match post.localhost {
        Some(l) => {
            if post.reset_edges {
                if topo1.has_edge(l, l) {
                    assert(topo0.has_edge(l, l) || (pre.localhost == Some(l) && l == target && l
                        != l));
                    assert(false);
                }
            }
        },
        None => {},
    }
}

/// Opens a discovery run.  An empty address list starts nothing and
/// leaves exactly one informational line; otherwise the job is handed
/// back ready to probe, with one informational line counting its
/// targets.  No probing and no graph access happens here.
pub fn ping_ip_list(
    ips_to_ping: Vec<IpAddress>,
    ping_timeout_ms: u64,
    ping_checkup_ms: u64,
    remove_connectivity_status_when_unreachable: bool,
    reset_connectivity_status: bool,
) -> (r: (Option<DiscoveryJob>, Vec<StatusMessage>))
    ensures
        r.1@.len() == 1,
        r.1@[0].is_info(),
        ips_to_ping@.len() == 0 ==> r.0 is None && r.1@[0].text() == msg_no_ips_text(),
        ips_to_ping@.len() > 0 ==> match r.0 {
            Some(job) => {
                &&& job.ips@ == ips_to_ping@
                &&& job.pos == 0
                &&& job.reachable@.len() == 0
                &&& job.unreachable@.len() == 0
                &&& job.ping_timeout_ms == ping_timeout_ms
                &&& job.ping_checkup_ms == ping_checkup_ms
                &&& job.remove_unreachable == remove_connectivity_status_when_unreachable
                &&& job.reset_edges == reset_connectivity_status
                &&& job.localhost is None
                &&& !job.started
                &&& r.1@[0].text() == msg_start_text(ips_to_ping@.len() as int)
            },
            None => false,
        },
{
    let mut msgs: Vec<StatusMessage> = Vec::new();
    if ips_to_ping.len() == 0 {
        msgs.push(
            StatusMessage::Info(
                String::from_str("Didn't receive any ips to ping. Not performing ping."),
            ),
        );
        return (None, msgs);
    }
    msgs.push(StatusMessage::Info(build_msg_start(ips_to_ping.len() as u64)));
    let job = DiscoveryJob {
        ips: ips_to_ping,
        pos: 0,
        reachable: Vec::new(),
        unreachable: Vec::new(),
        ping_timeout_ms,
        ping_checkup_ms,
        remove_unreachable: remove_connectivity_status_when_unreachable,
        reset_edges: reset_connectivity_status,
        localhost: None,
        started: false,
    };
    (Some(job), msgs)
}

impl DiscoveryJob {
    /// The configuration and input list never change during a run.
    pub open spec fn same_setup(self, other: Self) -> bool {
        &&& self.ips@ == other.ips@
        &&& self.ping_timeout_ms == other.ping_timeout_ms
        &&& self.ping_checkup_ms == other.ping_checkup_ms
        &&& self.remove_unreachable == other.remove_unreachable
        &&& self.reset_edges == other.reset_edges
    }

    /// What holds between a running job and the graph it updates, as long
    /// as nothing else mutates the graph in between.
    pub open spec fn inv(self, topo: NetworkTopology) -> bool {
        &&& topo.wf()
        &&& self.pos <= self.ips@.len()
        &&& match self.localhost {
            Some(l) => topo.localhost_id_is(l),
            None => true,
        }
        &&& forall|ip: IpAddress| #[trigger] self.reachable@.contains(ip) ==> topo.has_ip(ip)
        &&& match self.localhost {
            Some(l) => forall|ip: IpAddress| #[trigger]
                self.reachable@.contains(ip) ==> exists|id: u32|
                    #[trigger] topo.id_has_ip(id, ip) && (id == l || topo.has_edge(l, id)),
            None => true,
        }
        &&& forall|ip: IpAddress| #[trigger]
            self.reachable@.contains(ip) ==> self.ips@.take(self.pos as int).contains(ip)
        &&& forall|ip: IpAddress| #[trigger]
            self.unreachable@.contains(ip) ==> self.ips@.take(self.pos as int).contains(ip)
        &&& forall|j: int|
            0 <= j < self.pos ==> (self.reachable@.contains(#[trigger] self.ips@[j])
                || self.unreachable@.contains(self.ips@[j]))
        &&& (distinct_ips(self.ips@) ==> forall|ip: IpAddress|
            !(#[trigger] self.reachable@.contains(ip) && self.unreachable@.contains(ip)))
        &&& match self.localhost {
            Some(l) => self.reset_edges ==> !topo.has_edge(l, l),
            None => true,
        }
    }

    /// Takes the worker's first step: notes which node is the local
    /// machine, and — when the run resets connectivity — removes every
    /// outgoing edge of that node before any probing, whatever the probes
    /// later find.
    pub fn begin(&mut self, topo: &mut NetworkTopology)
        requires
            !old(self).started,
            old(self).pos == 0,
            old(self).reachable@.len() == 0,
            old(self).unreachable@.len() == 0,
            old(self).localhost is None,
            old(topo).wf(),
        ensures
            old(self).same_setup(*final(self)),
            final(self).started,
            final(self).pos == 0,
            final(self).reachable@.len() == 0,
            final(self).unreachable@.len() == 0,
            final(topo).wf(),
            final(self).inv(*final(topo)),
            final(topo).hosts@ == old(topo).hosts@,
            final(topo).node_ids() == old(topo).node_ids(),
            (final(self).localhost is None) == !old(topo).has_localhost(),
            match final(self).localhost {
                Some(l) => old(topo).localhost_id_is(l),
                None => true,
            },
            !old(self).reset_edges || final(self).localhost is None ==> final(topo).edges() == old(topo).edges(),
            match final(self).localhost {
                Some(l) => old(self).reset_edges ==> forall|b: u32| !final(topo).has_edge(l, b),
                None => true,
            },
            match final(self).localhost {
                Some(l) => forall|a: u32, b: u32|
                    a != l ==> (final(topo).has_edge(a, b) <==> old(topo).has_edge(a, b)),
                None => true,
            },
    {
        let lh = topo.get_localhosts_node();
        match lh {
            Some((l, _node)) => {
                self.localhost = Some(l);
                if self.reset_edges {
                    topo.remove_edges_from_node(l);
                }
            },
            None => {
                self.localhost = None;
            },
        }
        self.started = true;
        proof {
            assert(self.ips@.take(0) =~= Seq::<IpAddress>::empty());
        }
    }

    /// The next address to probe, in input order; nothing once every
    /// address was handled.
    pub fn next_target(&self) -> (r: Option<IpAddress>)
        ensures
            self.pos < self.ips@.len() ==> r == Some(self.ips@[self.pos as int]),
            self.pos >= self.ips@.len() ==> r is None,
    {
        if self.pos < self.ips.len() {
            Some(self.ips[self.pos])
        } else {
            None
        }
    }

    /// Digests the outcome of the probe of the current address.  A
    /// transport error is logged as an error, a timeout and either kind of
    /// unreachable answer as a warning — each leaves the graph alone — and
    /// an echo reply marks the host reachable: its node is created unless
    /// the address already has one, and the edge from the local machine is
    /// laid unless it is already there or the host is the local machine
    /// itself.
    pub fn on_ping_result(&mut self, topo: &mut NetworkTopology, outcome: PingOutcome) -> (msgs:
        Vec<StatusMessage>)
        requires
            old(self).started,
            old(self).pos < old(self).ips@.len(),
            old(self).inv(*old(topo)),
            old(topo).hosts@.len() < 0xFFFF_FFFF,
            old(topo).edge_count() < 0xFFFF_FFFF,
        ensures
            old(self).same_setup(*final(self)),
            final(self).started,
            final(self).localhost == old(self).localhost,
            final(self).pos == old(self).pos + 1,
            final(topo).wf(),
            final(self).inv(*final(topo)),
            msgs@.len() == 1,
            final(topo).hosts@.len() <= old(topo).hosts@.len() + 1,
            final(topo).edge_count() <= old(topo).edge_count() + 1,
            forall|a: u32, b: u32| old(topo).has_edge(a, b) ==> final(topo).has_edge(a, b),
            match outcome {
                PingOutcome::TransportError(e) => {
                    &&& *final(topo) == *old(topo)
                    &&& final(self).reachable@ == old(self).reachable@
                    &&& final(self).unreachable@ == old(self).unreachable@.push(
                        old(self).ips@[old(self).pos as int],
                    )
                    &&& msgs@[0].is_err()
                    &&& msgs@[0].text() == msg_transport_error_text(e@)
                },
                PingOutcome::TimedOut => {
                    &&& *final(topo) == *old(topo)
                    &&& final(self).reachable@ == old(self).reachable@
                    &&& final(self).unreachable@ == old(self).unreachable@.push(
                        old(self).ips@[old(self).pos as int],
                    )
                    &&& msgs@[0].is_warn()
                    &&& msgs@[0].text() == msg_timed_out_text(old(self).ips@[old(self).pos as int])
                },
                PingOutcome::Reply(info) => {
                    if info.icmp_type == ICMP_TYPE_DEST_UNREACHABLE {
                        &&& *final(topo) == *old(topo)
                        &&& final(self).reachable@ == old(self).reachable@
                        &&& final(self).unreachable@ == old(self).unreachable@.push(
                            old(self).ips@[old(self).pos as int],
                        )
                        &&& msgs@[0].is_warn()
                        &&& msgs@[0].text() == msg_unreachable_text(
                            old(self).ips@[old(self).pos as int],
                        )
                    } else if info.icmp_type != ICMP_TYPE_ECHO_REPLY {
                        &&& *final(topo) == *old(topo)
                        &&& final(self).reachable@ == old(self).reachable@
                        &&& final(self).unreachable@ == old(self).unreachable@.push(
                            old(self).ips@[old(self).pos as int],
                        )
                        &&& msgs@[0].is_warn()
                        &&& msgs@[0].text() == msg_odd_reply_text(
                            old(self).ips@[old(self).pos as int],
                            info.addr,
                            info.icmp_type,
                            info.icmp_code,
                        )
                    } else {
                        let ip = old(self).ips@[old(self).pos as int];
                        &&& final(self).reachable@ == old(self).reachable@.push(ip)
                        &&& final(self).unreachable@ == old(self).unreachable@
                        &&& msgs@[0].is_info()
                        &&& msgs@[0].text() == msg_reachable_text(ip)
                        &&& final(topo).has_ip(ip)
                        &&& (forall|a: u32, b: u32|
                            final(topo).has_edge(a, b) ==> old(topo).has_edge(a, b) || (old(self).localhost == Some(a) && final(topo).id_has_ip(b, ip)))
                        &&& (match old(self).localhost {
                            Some(l) => exists|id: u32|
                                #[trigger] final(topo).id_has_ip(id, ip) && (id == l || final(topo).has_edge(l, id)),
                            None => true,
                        })
                    }
                },
            },
    {
        let total = self.ips.len();
        let ip = self.ips[self.pos];
        self.pos = self.pos + 1;
        let mut msgs: Vec<StatusMessage> = Vec::new();
        match outcome {
            PingOutcome::TransportError(e) => {
                self.unreachable.push(ip);
                msgs.push(StatusMessage::Error(build_msg_transport_error(e.as_str())));
                proof {
                    lemma_fail_step(*old(self), *self, *topo);
                }
            },
            PingOutcome::TimedOut => {
                self.unreachable.push(ip);
                msgs.push(StatusMessage::Warn(build_msg_timed_out(ip)));
                proof {
                    lemma_fail_step(*old(self), *self, *topo);
                }
            },
            PingOutcome::Reply(info) => {
                if info.icmp_type == ICMP_TYPE_DEST_UNREACHABLE {
                    self.unreachable.push(ip);
                    msgs.push(StatusMessage::Warn(build_msg_unreachable(ip)));
                    proof {
                        lemma_fail_step(*old(self), *self, *topo);
                    }
                } else if info.icmp_type != ICMP_TYPE_ECHO_REPLY {
                    self.unreachable.push(ip);
                    msgs.push(
                        StatusMessage::Warn(
                            build_msg_odd_reply(ip, info.addr, info.icmp_type, info.icmp_code),
                        ),
                    );
                    proof {
                        lemma_fail_step(*old(self), *self, *topo);
                    }
                } else {
                    let target: u32;
                    match topo.get_node_by_ip(ip) {
                        Some((id, _node)) => {
                            target = id;
                        },
                        None => {
                            let added = topo.add_node(
                                NetworkTopologyNode::new(ip, String::new(), None),
                            );
                            match added {
                                Some(id) => {
                                    proof {
                                        let last = topo.hosts@.len() - 1;
                                        assert(topo.hosts@[last].id == id && topo.hosts@[last].node.ip
                                            == ip);
                                    }
                                    target = id;
                                },
                                None => {
                                    proof {
                                        assert(false);
                                    }
                                    target = 0;
                                },
                            }
                        },
                    }
                    proof {
                        assert(topo.id_has_ip(target, ip));
                        assert(graph_extended(*old(topo), *topo, self.localhost, target));
                        match self.localhost {
                            Some(l) => {
                                let i = choose|i: int|
                                    0 <= i < old(topo).hosts@.len() && (#[trigger] old(
                                        topo,
                                    ).hosts@[i]).id == l && old(topo).hosts@[i].node.is_localhost;
                                assert(topo.hosts@[i].id == l);
                                assert(topo.node_ids().contains(l));
                            },
                            None => {},
                        }
                    }
                    let ghost topo_mid = *topo;
                    match self.localhost {
                        Some(l) => {
                            if l != target {
                                if !topo.contains_edge(l, target) {
                                    proof {
                                        let i = choose|i: int|
                                            0 <= i < topo.hosts@.len() && (#[trigger] topo.hosts@[i]).id
                                                == target && topo.hosts@[i].node.ip == ip;
                                        assert(topo.node_ids().contains(target));
                                    }
                                    topo.add_edge(l, target, NetworkTopologyEdge::default());
                                }
                            }
                        },
                        None => {},
                    }
                    proof {
                        assert(topo.hosts@ == topo_mid.hosts@);
                        assert(topo.id_has_ip(target, ip));
                        assert(graph_extended(*old(topo), *topo, self.localhost, target));
                        match self.localhost {
                            Some(l) => {
                                assert(target == l || topo.has_edge(l, target));
                            },
                            None => {},
                        }
                    }
                    msgs.push(StatusMessage::Info(build_msg_reachable(ip)));
                    self.reachable.push(ip);
                    proof {
                        lemma_success_step(*old(self), *self, *old(topo), *topo, target);
                        match old(self).localhost {
                            Some(l) => {
                                assert(topo.id_has_ip(target, ip) && (target == l || topo.has_edge(
                                    l,
                                    target,
                                )));
                            },
                            None => {},
                        }
                    }
                }
            },
        }
        msgs
    }

    /// Closes the run: when asked to, removes the edge from the local
    /// machine to every probed host that never answered, so that — for the
    /// probed addresses — an edge is left exactly where the host answered
    /// and is not the local machine itself.  Ends with the line counting
    /// the reachable hosts.
    pub fn finish(&mut self, topo: &mut NetworkTopology) -> (msgs: Vec<StatusMessage>)
        requires
            old(self).started,
            old(self).pos == old(self).ips@.len(),
            old(self).inv(*old(topo)),
        ensures
            *final(self) == *old(self),
            final(topo).wf(),
            final(topo).hosts@ == old(topo).hosts@,
            final(topo).node_ids() == old(topo).node_ids(),
            old(self).remove_unreachable ==> msgs@.len() == 2 && msgs@[0].is_info()
                && msgs@[0].text() == msg_removing_text() && msgs@[1].is_info() && msgs@[1].text()
                == msg_finished_text(old(self).reachable@.len() as int),
            !old(self).remove_unreachable ==> *final(topo) == *old(topo) && msgs@.len() == 1
                && msgs@[0].is_info() && msgs@[0].text() == msg_finished_text(
                old(self).reachable@.len() as int,
            ),
            forall|a: u32, b: u32| final(topo).has_edge(a, b) ==> old(topo).has_edge(a, b),
            match old(self).localhost {
                Some(l) => forall|a: u32, b: u32|
                    a != l ==> (final(topo).has_edge(a, b) <==> old(topo).has_edge(a, b)),
                None => forall|a: u32, b: u32|
                    final(topo).has_edge(a, b) <==> old(topo).has_edge(a, b),
            },
            old(self).remove_unreachable && distinct_ips(old(self).ips@) ==> match old(self).localhost {
                Some(l) => forall|j: int, id: u32|
                    0 <= j < old(self).ips@.len() && #[trigger] final(topo).id_has_ip(
                        id,
                        old(self).ips@[j],
                    ) && id != l ==> (final(topo).has_edge(l, id) <==> old(self).reachable@.contains(old(self).ips@[j])),
                None => true,
            },
            old(self).reset_edges ==> match old(self).localhost {
                Some(l) => !final(topo).has_edge(l, l),
                None => true,
            },
    {
        let ghost prev_topo = *topo;
        let mut msgs: Vec<StatusMessage> = Vec::new();
        if self.remove_unreachable {
            msgs.push(
                StatusMessage::Info(
                    String::from_str("Removing connectivity status to unreachable IPs"),
                ),
            );
            match self.localhost {
                Some(l) => {
                    proof {
                        if distinct_ips(self.ips@) {
                            assert forall|ip2: IpAddress, id: u32|
                                self.reachable@.contains(ip2) && #[trigger] topo.id_has_ip(id, ip2)
                                    && id != l implies topo.has_edge(l, id) by {
                                let id0 = choose|id0: u32|
                                    #[trigger] topo.id_has_ip(id0, ip2) && (id0 == l
                                        || topo.has_edge(l, id0));
                                lemma_unique_entry(*topo, ip2, id, id0);
                            }
                        }
                    }
                    let mut k: usize = 0;
                    while k < self.unreachable.len()
                        invariant
                            *self == *old(self),
                            self.localhost == Some(l),
                            k <= self.unreachable@.len(),
                            topo.wf(),
                            topo.hosts@ == prev_topo.hosts@,
                            topo.node_ids() == prev_topo.node_ids(),
                            old(self).inv(prev_topo),
                            forall|a: u32, b: u32| topo.has_edge(a, b) ==> prev_topo.has_edge(a, b),
                            forall|a: u32, b: u32|
                                a != l ==> (topo.has_edge(a, b) <==> prev_topo.has_edge(a, b)),
                            forall|j: int, id: u32|
                                0 <= j < k && #[trigger] topo.id_has_ip(id, self.unreachable@[j])
                                    ==> !topo.has_edge(l, id),
                            distinct_ips(self.ips@) ==> forall|ip2: IpAddress, id: u32|
                                self.reachable@.contains(ip2) && #[trigger] topo.id_has_ip(id, ip2)
                                    && id != l ==> topo.has_edge(l, id),
                        decreases self.unreachable@.len() - k,
                    {
                        let uip = self.unreachable[k];
                        let ghost pre_t = *topo;
                        match topo.get_node_by_ip(uip) {
                            Some((uid, _node)) => {
                                topo.remove_edge_between(l, uid);
                                proof {
                                    assert(topo.hosts@ == pre_t.hosts@);
                                    assert(topo.id_has_ip(uid, uip));
                                    assert forall|j: int, id: u32|
                                        0 <= j < k + 1 && #[trigger] topo.id_has_ip(
                                            id,
                                            self.unreachable@[j],
                                        ) implies !topo.has_edge(l, id) by {
                                        if j < k {
                                            assert(pre_t.id_has_ip(id, self.unreachable@[j]));
                                            assert(!pre_t.has_edge(l, id));
                                            if topo.has_edge(l, id) {
                                                if id != uid {
                                                    assert(pre_t.has_edge(l, id));
                                                }
                                                assert(false);
                                            }
                                        } else {
                                            lemma_unique_entry(*topo, uip, id, uid);
                                        }
                                    }
                                    if distinct_ips(self.ips@) {
                                        assert forall|ip2: IpAddress, id: u32|
                                            self.reachable@.contains(ip2) && #[trigger] topo.id_has_ip(
                                                id,
                                                ip2,
                                            ) && id != l implies topo.has_edge(l, id) by {
                                            assert(pre_t.id_has_ip(id, ip2));
                                            assert(pre_t.has_edge(l, id));
                                            if id == uid {
                                                lemma_unique_id(pre_t, id, ip2, uip);
                                                assert(self.unreachable@[k as int] == uip);
                                                assert(self.unreachable@.contains(ip2));
                                                assert(false);
                                            } else {
                                                assert(topo.has_edge(l, id));
                                            }
                                        }
                                    }
                                }
                            },
                            None => {
                                proof {
                                    assert forall|id: u32|
                                        #[trigger] topo.id_has_ip(
                                            id,
                                            self.unreachable@[k as int],
                                        ) implies false by {
                                        lemma_id_has_ip_gives_has_ip(*topo, id, uip);
                                    }
                                }
                            },
                        }
                        k = k + 1;
                    }
                },
                None => {},
            }
        }
        msgs.push(StatusMessage::Info(build_msg_finished(self.reachable.len() as u64)));
        proof {
            if self.remove_unreachable && distinct_ips(self.ips@) {
                match self.localhost {
                    Some(l) => {
                        assert forall|j: int, id: u32|
                            0 <= j < self.ips@.len() && #[trigger] topo.id_has_ip(
                                id,
                                self.ips@[j],
                            ) && id != l implies (topo.has_edge(l, id) <==> self.reachable@.contains(
                            self.ips@[j],
                        )) by {
                            let ip = self.ips@[j];
                            assert(self.ips@.take(self.ips@.len() as int) =~= self.ips@);
                            assert(self.reachable@.contains(ip) || self.unreachable@.contains(ip));
                            if self.unreachable@.contains(ip) {
                                let u = choose|u: int|
                                    0 <= u < self.unreachable@.len() && self.unreachable@[u] == ip;
                                assert(!topo.has_edge(l, id));
                            }
                        }
                    },
                    None => {},
                }
            }
        }
        msgs
    }
}

/// A host with an id carrying `ip` means some host has `ip`.
proof fn lemma_id_has_ip_gives_has_ip(t: NetworkTopology, id: u32, ip: IpAddress)
    requires
        t.id_has_ip(id, ip),
    ensures
        t.has_ip(ip),
{
    let i = choose|i: int|
        0 <= i < t.hosts@.len() && (#[trigger] t.hosts@[i]).id == id && t.hosts@[i].node.ip == ip;
    assert(t.hosts@[i].node.ip == ip);
}

} // verus!
