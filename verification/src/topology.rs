//! The topology graph store: the single source of truth about discovered
//! hosts.
//!
//! Nodes are keyed by IP address — no two nodes ever share one — and a
//! directed edge records that a host was reachable from the local machine.
//! Node ids and edges live in the petgraph-backed [`TopoStore`]; the node
//! payloads and display labels live beside it, and the invariant [`wf`]
//! ties the two together.
//!
//! [`wf`]: NetworkTopology::wf

use vstd::prelude::*;
use vstd::seq_lib::*;
use crate::graph_store::{
    store_add_node, store_edges, store_find_edge, store_new, store_nodes, store_out_edges,
    store_remove_edge, store_remove_node, store_update_edge, TopoStore,
};
use crate::net::IpAddress;
use crate::textfmt::ip_string;

verus! {

/// A TCP port number.
pub type Port = u16;

/// What a banner grab read, decoded as text; `None` when none was taken.
pub type BannerGrabResult = Option<String>;

/// One fuzz probe: the command sent and the response it drew.
#[derive(Debug)]
pub struct FuzzingResult {
    pub command: String,
    pub result: String,
    pub result_raw: Vec<u8>,
}

/// The fuzz probes that drew a response; `None` when fuzzing was off.
pub type FuzzingResults = Option<Vec<FuzzingResult>>;

/// Spec-level image of a [`FuzzingResult`].
pub ghost struct FuzzingResultView {
    pub command: Seq<char>,
    pub result: Seq<char>,
    pub result_raw: Seq<u8>,
}

impl View for FuzzingResult {
    type V = FuzzingResultView;

    open spec fn view(&self) -> FuzzingResultView {
        FuzzingResultView {
            command: self.command@,
            result: self.result@,
            result_raw: self.result_raw@,
        }
    }
}

/// The views of a list of fuzz results, in order.
pub open spec fn fuzz_views(s: Seq<FuzzingResult>) -> Seq<FuzzingResultView> {
    s.map_values(|x: FuzzingResult| x@)
}

pub proof fn lemma_fuzz_views_push(s: Seq<FuzzingResult>, x: FuzzingResult)
    ensures
        fuzz_views(s.push(x)) == fuzz_views(s).push(x@),
{
    let l = fuzz_views(s.push(x));
    let r = fuzz_views(s).push(x@);
    assert(l.len() == r.len());
    assert forall|k: int| 0 <= k < l.len() implies #[trigger] l[k] == r[k] by {
        assert(l[k] == s.push(x)[k]@);
        if k < s.len() {
            assert(s.push(x)[k] == s[k]);
            assert(r[k] == fuzz_views(s)[k]);
            assert(fuzz_views(s)[k] == s[k]@);
        } else {
            assert(s.push(x)[k] == x);
        }
    }
    assert(l =~= r);
}

impl Clone for FuzzingResult {
    fn clone(&self) -> (r: Self)
        ensures
            r@ == self@,
    {
        FuzzingResult {
            command: self.command.clone(),
            result: self.result.clone(),
            result_raw: self.result_raw.clone(),
        }
    }
}

/// Everything recorded about one open port of a host.
#[derive(Debug)]
pub struct PortInfo {
    pub number: Port,
    pub banner: BannerGrabResult,
    pub fuzzing_results: FuzzingResults,
    pub possible_service_name: String,
    pub possible_service_usefull_info: Option<String>,
}

/// Spec-level image of a [`PortInfo`].
pub ghost struct PortInfoView {
    pub number: Port,
    pub banner: Option<Seq<char>>,
    pub fuzzing_results: Option<Seq<FuzzingResultView>>,
    pub possible_service_name: Seq<char>,
    pub possible_service_usefull_info: Option<Seq<char>>,
}

impl View for PortInfo {
    type V = PortInfoView;

    open spec fn view(&self) -> PortInfoView {
        PortInfoView {
            number: self.number,
            banner: match self.banner {
                Some(b) => Some(b@),
                None => None,
            },
            fuzzing_results: match self.fuzzing_results {
                Some(f) => Some(fuzz_views(f@)),
                None => None,
            },
            possible_service_name: self.possible_service_name@,
            possible_service_usefull_info: match self.possible_service_usefull_info {
                Some(u) => Some(u@),
                None => None,
            },
        }
    }
}

impl PortInfo {
    pub fn new(
        number: Port,
        banner: BannerGrabResult,
        fuzzing_results: FuzzingResults,
        possible_service_name: String,
        possible_service_usefull_info: Option<String>,
    ) -> (r: Self)
        ensures
            r.number == number,
            r.banner == banner,
            r.fuzzing_results == fuzzing_results,
            r.possible_service_name == possible_service_name,
            r.possible_service_usefull_info == possible_service_usefull_info,
    {
        PortInfo { number, banner, fuzzing_results, possible_service_name, possible_service_usefull_info }
    }
}

fn clone_fuzzing_results(v: &Vec<FuzzingResult>) -> (r: Vec<FuzzingResult>)
    ensures
        fuzz_views(r@) == fuzz_views(v@),
{
    let mut out: Vec<FuzzingResult> = Vec::new();
    let mut i: usize = 0;
    while i < v.len()
        invariant
            i <= v.len(),
            out@.len() == i as int,
            fuzz_views(out@) == fuzz_views(v@.take(i as int)),
        decreases v.len() - i,
    {
        let cloned_item = (&v[i]).clone();
        proof {
            lemma_fuzz_views_push(out@, cloned_item);
            lemma_fuzz_views_push(v@.take(i as int), v@[i as int]);
            assert(v@.take(i as int + 1) =~= v@.take(i as int).push(v@[i as int]));
        }
        out.push(cloned_item);
        i = i + 1;
    }
    proof {
        assert(v@.take(v@.len() as int) =~= v@);
    }
    out
}

impl Clone for PortInfo {
    fn clone(&self) -> (r: Self)
        ensures
            r@ == self@,
    {
        let fuzzing_results: FuzzingResults = match &self.fuzzing_results {
            Some(f) => Some(clone_fuzzing_results(f)),
            None => None,
        };
        let r = PortInfo {
            number: self.number,
            banner: match &self.banner {
                Some(b) => Some(b.clone()),
                None => None,
            },
            fuzzing_results,
            possible_service_name: self.possible_service_name.clone(),
            possible_service_usefull_info: match &self.possible_service_usefull_info {
                Some(u) => Some(u.clone()),
                None => None,
            },
        };
        r
    }
}

/// One discovered host: its address — the unique key — optional hostname,
/// free-text notes, the local-machine flag and the accumulated open ports.
#[derive(Debug)]
pub struct NetworkTopologyNode {
    pub ip: IpAddress,
    pub notes: String,
    pub is_localhost: bool,
    pub hostname: String,
    pub opened_ports: Vec<PortInfo>,
}

/// Spec-level image of a [`NetworkTopologyNode`].
pub ghost struct NodeView {
    pub ip: IpAddress,
    pub notes: Seq<char>,
    pub is_localhost: bool,
    pub hostname: Seq<char>,
    pub opened_ports: Seq<PortInfoView>,
}

/// The views of a list of port records, in order.
pub open spec fn port_views(s: Seq<PortInfo>) -> Seq<PortInfoView> {
    s.map_values(|p: PortInfo| p@)
}

pub proof fn lemma_port_views_push(s: Seq<PortInfo>, x: PortInfo)
    ensures
        port_views(s.push(x)) == port_views(s).push(x@),
{
    let l = port_views(s.push(x));
    let r = port_views(s).push(x@);
    assert(l.len() == r.len());
    assert forall|k: int| 0 <= k < l.len() implies #[trigger] l[k] == r[k] by {
        assert(l[k] == s.push(x)[k]@);
        if k < s.len() {
            assert(s.push(x)[k] == s[k]);
            assert(r[k] == port_views(s)[k]);
            assert(port_views(s)[k] == s[k]@);
        } else {
            assert(s.push(x)[k] == x);
        }
    }
    assert(l =~= r);
}

impl View for NetworkTopologyNode {
    type V = NodeView;

    open spec fn view(&self) -> NodeView {
        NodeView {
            ip: self.ip,
            notes: self.notes@,
            is_localhost: self.is_localhost,
            hostname: self.hostname@,
            opened_ports: port_views(self.opened_ports@),
        }
    }
}

fn clone_ports(v: &Vec<PortInfo>) -> (r: Vec<PortInfo>)
    ensures
        port_views(r@) == port_views(v@),
{
    let mut out: Vec<PortInfo> = Vec::new();
    let mut i: usize = 0;
    while i < v.len()
        invariant
            i <= v.len(),
            out@.len() == i as int,
            port_views(out@) == port_views(v@.take(i as int)),
        decreases v.len() - i,
    {
        let cloned_item = (&v[i]).clone();
        proof {
            lemma_port_views_push(out@, cloned_item);
            lemma_port_views_push(v@.take(i as int), v@[i as int]);
            assert(v@.take(i as int + 1) =~= v@.take(i as int).push(v@[i as int]));
        }
        out.push(cloned_item);
        i = i + 1;
    }
    proof {
        assert(v@.take(v@.len() as int) =~= v@);
    }
    out
}

impl Clone for NetworkTopologyNode {
    fn clone(&self) -> (r: Self)
        ensures
            r@ == self@,
    {
        NetworkTopologyNode {
            ip: self.ip,
            notes: self.notes.clone(),
            is_localhost: self.is_localhost,
            hostname: self.hostname.clone(),
            opened_ports: clone_ports(&self.opened_ports),
        }
    }
}

impl NetworkTopologyNode {
    /// A plain (non-local) host, with no ports discovered yet.
    pub fn new(ip: IpAddress, notes: String, hostname: Option<String>) -> (r: Self)
        ensures
            r.ip == ip,
            r.notes == notes,
            r.is_localhost == false,
            r@.hostname == (match hostname {
                Some(h) => h@,
                None => Seq::<char>::empty(),
            }),
            r.opened_ports@.len() == 0,
    {
        Self::new_internal(ip, notes, false, hostname)
    }

    /// The node standing for the machine the tool runs on; the caller
    /// supplies the address and hostname it looked up.
    pub fn new_localhost(ip: IpAddress, notes: String, hostname: Option<String>) -> (r: Self)
        ensures
            r.ip == ip,
            r.notes == notes,
            r.is_localhost == true,
            r@.hostname == (match hostname {
                Some(h) => h@,
                None => Seq::<char>::empty(),
            }),
            r.opened_ports@.len() == 0,
    {
        Self::new_internal(ip, notes, true, hostname)
    }

    fn new_internal(ip: IpAddress, notes: String, is_localhost: bool, hostname: Option<String>) -> (r:
        Self)
        ensures
            r.ip == ip,
            r.notes == notes,
            r.is_localhost == is_localhost,
            r@.hostname == (match hostname {
                Some(h) => h@,
                None => Seq::<char>::empty(),
            }),
            r.opened_ports@.len() == 0,
    {
        let hostname_or_empty: String = match hostname {
            Some(h) => h,
            None => String::new(),
        };
        NetworkTopologyNode {
            ip,
            notes,
            is_localhost,
            hostname: hostname_or_empty,
            opened_ports: Vec::new(),
        }
    }
}

/// The payload of a reachability edge.  Nothing beyond its existence yet.
#[derive(Debug, Clone)]
pub struct NetworkTopologyEdge {}

impl Default for NetworkTopologyEdge {
    fn default() -> (r: Self) {
        NetworkTopologyEdge {  }
    }
}

/// The label drawn beside a node: its address, and on a second line the
/// hostname when one is known.
pub open spec fn label_of(n: NodeView) -> Seq<char> {
    if n.hostname.len() == 0 {
        ip_string(n.ip)
    } else {
        ip_string(n.ip) + seq!['\n'] + n.hostname
    }
}


/// Id-and-view pairs of a list of host clones.
pub open spec fn pair_views(s: Seq<(u32, NetworkTopologyNode)>) -> Seq<(u32, NodeView)> {
    s.map_values(|p: (u32, NetworkTopologyNode)| (p.0, p.1@))
}

/// The entries whose host is not marked as the local machine, in order.
pub open spec fn non_localhost_of(s: Seq<(u32, NodeView)>) -> Seq<(u32, NodeView)> {
    s.filter(|h: (u32, NodeView)| !h.1.is_localhost)
}

/// The addresses of the listed hosts, in order.
pub open spec fn ips_of(s: Seq<(u32, NodeView)>) -> Seq<IpAddress> {
    s.map_values(|h: (u32, NodeView)| h.1.ip)
}

proof fn lemma_non_localhost_empty()
    ensures
        non_localhost_of(Seq::<(u32, NodeView)>::empty()) == Seq::<(u32, NodeView)>::empty(),
{
    reveal(Seq::filter);
}

proof fn lemma_non_localhost_push(s: Seq<(u32, NodeView)>, x: (u32, NodeView))
    ensures
        non_localhost_of(s.push(x)) == if !x.1.is_localhost {
            non_localhost_of(s).push(x)
        } else {
            non_localhost_of(s)
        },
{
    reveal(Seq::filter);
    assert(s.push(x).drop_last() =~= s);
    assert(s.push(x).last() == x);
}

proof fn lemma_pair_views_push(s: Seq<(u32, NetworkTopologyNode)>, x: (u32, NodeView))
    ensures
        forall|n: NetworkTopologyNode|
            n@ == x.1 ==> pair_views(s.push((x.0, n))) == pair_views(s).push(x),
{
    assert forall|n: NetworkTopologyNode| n@ == x.1 implies pair_views(s.push((x.0, n)))
        == pair_views(s).push(x) by {
        let l = pair_views(s.push((x.0, n)));
        let r = pair_views(s).push(x);
        assert(l.len() == r.len());
        assert forall|k: int| 0 <= k < l.len() implies #[trigger] l[k] == r[k] by {
            if k < s.len() {
                assert(s.push((x.0, n))[k] == s[k]);
                assert(r[k] == pair_views(s)[k]);
            } else {
                assert(s.push((x.0, n))[k] == (x.0, n));
            }
        }
        assert(l =~= r);
    }
}

proof fn lemma_port_views_add(a: Seq<PortInfo>, b: Seq<PortInfo>)
    ensures
        port_views(a + b) == port_views(a) + port_views(b),
{
    let l = port_views(a + b);
    let r = port_views(a) + port_views(b);
    assert(l.len() == r.len());
    assert forall|k: int| 0 <= k < l.len() implies #[trigger] l[k] == r[k] by {
        if k < a.len() {
            assert((a + b)[k] == a[k]);
            assert(r[k] == port_views(a)[k]);
        } else {
            assert((a + b)[k] == b[k - a.len()]);
            assert(r[k] == port_views(b)[k - a.len()]);
        }
    }
    assert(l =~= r);
}

/// One host entry: the store id, the payload and the cached display label.
pub struct HostEntry {
    pub id: u32,
    pub node: NetworkTopologyNode,
    pub label: String,
}

/// The thread-shared topology graph.  Callers serialise access (one lock
/// around the whole store); every method here is one critical section, so
/// the check-then-insert of [`add_node`] is atomic under that lock.
///
/// [`add_node`]: NetworkTopology::add_node
pub struct NetworkTopology {
    pub store: TopoStore,
    pub hosts: Vec<HostEntry>,
}

impl NetworkTopology {
    /// The live node ids.
    pub open spec fn node_ids(self) -> Set<u32> {
        store_nodes(self.store)
    }

    /// The reachability edges: edge id to (source, target).
    pub open spec fn edges(self) -> Map<u32, (u32, u32)> {
        store_edges(self.store)
    }

    /// The id and payload of each host, in insertion order.
    pub open spec fn host_views(self) -> Seq<(u32, NodeView)> {
        self.hosts@.map_values(|h: HostEntry| (h.id, h.node@))
    }

    /// The cached label of each host, in the same order.
    pub open spec fn label_views(self) -> Seq<Seq<char>> {
        self.hosts@.map_values(|h: HostEntry| h.label@)
    }

    /// True when an edge runs from `a` to `b`.
    pub open spec fn has_edge(self, a: u32, b: u32) -> bool {
        exists|e: u32| #[trigger] self.edges().index(e) == (a, b) && self.edges().dom().contains(e)
    }

    /// How many edges the store holds.
    pub open spec fn edge_count(self) -> nat {
        self.edges().dom().len()
    }

    /// True when some host has address `ip`.
    pub open spec fn has_ip(self, ip: IpAddress) -> bool {
        exists|i: int| 0 <= i < self.hosts@.len() && (#[trigger] self.hosts@[i]).node.ip == ip
    }

    /// True when the host with id `id` has address `ip`.
    pub open spec fn id_has_ip(self, id: u32, ip: IpAddress) -> bool {
        exists|i: int|
            0 <= i < self.hosts@.len() && (#[trigger] self.hosts@[i]).id == id && self.hosts@[i].node.ip
                == ip
    }

    /// True when a node marked as the local machine is present.
    pub open spec fn has_localhost(self) -> bool {
        exists|i: int| 0 <= i < self.hosts@.len() && (#[trigger] self.hosts@[i]).node.is_localhost
    }

    /// True when `id` is the id of the node marked as the local machine.
    pub open spec fn localhost_id_is(self, id: u32) -> bool {
        exists|i: int|
            0 <= i < self.hosts@.len() && (#[trigger] self.hosts@[i]).id == id
                && self.hosts@[i].node.is_localhost
    }

    /// The invariant of the store.
    ///
    /// - host ids are distinct, and are exactly the live ids of the store;
    /// - no two hosts share an address;
    /// - at most one host is marked as the local machine;
    /// - every edge endpoint is a live node;
    /// - no two edges connect the same ordered pair of nodes.
    pub open spec fn wf(self) -> bool {
        let hs = self.hosts@;
        &&& forall|i: int, j: int|
            0 <= i < j < hs.len() ==> (#[trigger] hs[i]).id != (#[trigger] hs[j]).id
        &&& forall|i: int, j: int|
            0 <= i < j < hs.len() ==> (#[trigger] hs[i]).node.ip != (#[trigger] hs[j]).node.ip
        &&& forall|i: int, j: int|
            0 <= i < j < hs.len() ==> !((#[trigger] hs[i]).node.is_localhost && (#[trigger] hs[j]).node.is_localhost)
        &&& store_nodes(self.store).finite()
        &&& store_nodes(self.store).len() == hs.len()
        &&& store_edges(self.store).dom().finite()
        &&& forall|id: u32|
            store_nodes(self.store).contains(id) <==> exists|i: int|
                0 <= i < hs.len() && (#[trigger] hs[i]).id == id
        &&& forall|e: u32| #[trigger]
            store_edges(self.store).dom().contains(e) ==> store_nodes(self.store).contains(
                store_edges(self.store)[e].0,
            ) && store_nodes(self.store).contains(store_edges(self.store)[e].1)
        &&& forall|e1: u32, e2: u32|
            store_edges(self.store).dom().contains(e1) && store_edges(self.store).dom().contains(e2)
                && #[trigger] store_edges(self.store)[e1] == #[trigger] store_edges(self.store)[e2]
                ==> e1 == e2
    }

    /// The uniqueness law of the store: a well-formed topology never holds
    /// two nodes with the same address.  Every method here both assumes and
    /// re-establishes [`Self::wf`], and [`Self::add_node`] checks the
    /// address and inserts within one `&mut self` critical section, so two
    /// racing inserts of one new address — serialised by the caller's lock —
    /// create exactly one node.
    pub proof fn lemma_no_duplicate_addresses(self, i: int, j: int)
        requires
            self.wf(),
            0 <= i < self.host_views().len(),
            0 <= j < self.host_views().len(),
            i != j,
        ensures
            self.host_views()[i].1.ip != self.host_views()[j].1.ip,
    {
        if i < j {
            assert(self.hosts@[i].node.ip != self.hosts@[j].node.ip);
        } else {
            assert(self.hosts@[j].node.ip != self.hosts@[i].node.ip);
        }
    }

    /// An empty topology.
    pub fn new() -> (r: Self)
        ensures
            r.wf(),
            r.host_views() == Seq::<(u32, NodeView)>::empty(),
            r.node_ids() == Set::<u32>::empty(),
            r.edges() == Map::<u32, (u32, u32)>::empty(),
    {
        let store = store_new();
        let r = NetworkTopology { store, hosts: Vec::new() };
        proof {
            assert(r.host_views() =~= Seq::<(u32, NodeView)>::empty());
        }
        r
    }

    /// The display label for a node's data.
    pub fn generate_node_label(node_data: &NetworkTopologyNode) -> (r: String)
        ensures
            r@ == label_of(node_data@),
    {
        let mut new_label = crate::textfmt::ip_to_string(node_data.ip);
        if !node_data.hostname.as_str().is_empty() {
            new_label.append("\n");
            new_label.append(node_data.hostname.as_str());
            proof {
                reveal_strlit("\n");
                assert(new_label@ =~= label_of(node_data@));
            }
        }
        new_label
    }

    /// Inserts a host unless its address is already taken, and returns the
    /// fresh node id when it did insert.  The address check and the insert
    /// form one critical section: with the store behind a lock, two racing
    /// callers can never both insert the same address.
    pub fn add_node(&mut self, new_topology_node: NetworkTopologyNode) -> (r: Option<u32>)
        requires
            old(self).wf(),
            old(self).hosts@.len() < 0xFFFF_FFFF,
            new_topology_node.is_localhost ==> !old(self).has_localhost(),
        ensures
            final(self).wf(),
            final(self).edges() == old(self).edges(),
            match r {
                None => *final(self) == *old(self) && old(self).has_ip(new_topology_node.ip),
                Some(id) => {
                    &&& !old(self).has_ip(new_topology_node.ip)
                    &&& !old(self).node_ids().contains(id)
                    &&& final(self).node_ids() == old(self).node_ids().insert(id)
                    &&& final(self).host_views() == old(self).host_views().push(
                        (id, new_topology_node@),
                    )
                    &&& final(self).label_views() == old(self).label_views().push(
                        label_of(new_topology_node@),
                    )
                    &&& final(self).hosts@.len() == old(self).hosts@.len() + 1
                    &&& final(self).hosts@ == old(self).hosts@.push(
                        final(self).hosts@[old(self).hosts@.len() as int],
                    )
                    &&& final(self).hosts@[old(self).hosts@.len() as int].id == id
                    &&& final(self).hosts@[old(self).hosts@.len() as int].node == new_topology_node
                },
            },
    {
        let label = Self::generate_node_label(&new_topology_node);
        let mut i: usize = 0;
        while i < self.hosts.len()
            invariant
                *self == *old(self),
                old(self).wf(),
                i <= self.hosts@.len(),
                forall|k: int| 0 <= k < i ==> (#[trigger] self.hosts@[k]).node.ip != new_topology_node.ip,
            decreases self.hosts@.len() - i,
        {
            if self.hosts[i].node.ip == new_topology_node.ip {
                return None;
            }
            i = i + 1;
        }
        let id = store_add_node(&mut self.store);
        self.hosts.push(HostEntry { id, node: new_topology_node, label });
        proof {
            broadcast use vstd::set::group_set_axioms;

            assert(self.host_views() =~= old(self).host_views().push(
                (id, self.hosts@.last().node@),
            ));
            assert(self.label_views() =~= old(self).label_views().push(
                self.hosts@.last().label@,
            ));
            assert forall|x: u32| store_nodes(self.store).contains(x) implies exists|k: int|
                0 <= k < self.hosts@.len() && (#[trigger] self.hosts@[k]).id == x by {
                if x == id {
                    assert(self.hosts@[self.hosts@.len() - 1].id == x);
                } else {
                    let k = choose|k: int|
                        0 <= k < old(self).hosts@.len() && (#[trigger] old(self).hosts@[k]).id == x;
                    assert(self.hosts@[k].id == x);
                }
            }
        }
        Some(id)
    }

    /// The node with address `ip`, as a clone beside its id.
    pub fn get_node_by_ip(&self, ip: IpAddress) -> (r: Option<(u32, NetworkTopologyNode)>)
        requires
            self.wf(),
        ensures
            match r {
                None => !self.has_ip(ip),
                Some((id, node)) => node.ip == ip && self.id_has_ip(id, ip) && exists|i: int|
                    0 <= i < self.host_views().len() && #[trigger] self.host_views()[i] == (
                        id,
                        node@,
                    ),
            },
    {
        let mut i: usize = 0;
        while i < self.hosts.len()
            invariant
                self.wf(),
                i <= self.hosts@.len(),
                forall|k: int| 0 <= k < i ==> (#[trigger] self.hosts@[k]).node.ip != ip,
            decreases self.hosts@.len() - i,
        {
            if self.hosts[i].node.ip == ip {
                let entry = &self.hosts[i];
                let node = entry.node.clone();
                proof {
                    assert(self.host_views()[i as int] == (entry.id, node@));
                }
                return Some((entry.id, node));
            }
            i = i + 1;
        }
        None
    }

    /// The node marked as the local machine, as a clone beside its id.
    pub fn get_localhosts_node(&self) -> (r: Option<(u32, NetworkTopologyNode)>)
        requires
            self.wf(),
        ensures
            match r {
                None => !self.has_localhost(),
                Some((id, node)) => node.is_localhost && self.localhost_id_is(id) && exists|i: int|
                    0 <= i < self.host_views().len() && #[trigger] self.host_views()[i] == (
                        id,
                        node@,
                    ),
            },
    {
        let mut i: usize = 0;
        while i < self.hosts.len()
            invariant
                self.wf(),
                i <= self.hosts@.len(),
                forall|k: int| 0 <= k < i ==> !(#[trigger] self.hosts@[k]).node.is_localhost,
            decreases self.hosts@.len() - i,
        {
            if self.hosts[i].node.is_localhost {
                let entry = &self.hosts[i];
                let node = entry.node.clone();
                proof {
                    assert(self.host_views()[i as int] == (entry.id, node@));
                }
                return Some((entry.id, node));
            }
            i = i + 1;
        }
        None
    }

    /// True when `id` is a live node id.
    pub open spec fn has_id(self, id: u32) -> bool {
        self.node_ids().contains(id)
    }

    /// A witness for [`Self::has_edge`].
    proof fn lemma_has_edge_witness(self, a: u32, b: u32) -> (e: u32)
        requires
            self.has_edge(a, b),
        ensures
            self.edges().dom().contains(e),
            self.edges()[e] == (a, b),
    {
        choose|e: u32| #[trigger] self.edges().index(e) == (a, b) && self.edges().dom().contains(e)
    }

    /// An edge id with the right endpoints shows [`Self::has_edge`].
    proof fn lemma_has_edge_intro(self, a: u32, b: u32, e: u32)
        requires
            self.edges().dom().contains(e),
            self.edges()[e] == (a, b),
        ensures
            self.has_edge(a, b),
    {
        assert(self.edges().index(e) == (a, b) && self.edges().dom().contains(e));
    }

    fn find_pos_by_id(hosts: &Vec<HostEntry>, id: u32) -> (r: Option<usize>)
        ensures
            match r {
                Some(p) => p < hosts@.len() && hosts@[p as int].id == id,
                None => forall|i: int| 0 <= i < hosts@.len() ==> (#[trigger] hosts@[i]).id != id,
            },
    {
        let mut i: usize = 0;
        while i < hosts.len()
            invariant
                i <= hosts@.len(),
                forall|k: int| 0 <= k < i ==> (#[trigger] hosts@[k]).id != id,
            decreases hosts@.len() - i,
        {
            if hosts[i].id == id {
                return Some(i);
            }
            i = i + 1;
        }
        None
    }

    /// Adds a reachability edge from `from` to `to`, carrying `weight`; a
    /// pair that already has one is left as it is, so edges never
    /// duplicate.
    pub fn add_edge(&mut self, from: u32, to: u32, weight: NetworkTopologyEdge)
        requires
            old(self).wf(),
            old(self).node_ids().contains(from),
            old(self).node_ids().contains(to),
            old(self).edge_count() < 0xFFFF_FFFF,
        ensures
            final(self).wf(),
            final(self).hosts == old(self).hosts,
            final(self).node_ids() == old(self).node_ids(),
            final(self).has_edge(from, to),
            forall|a: u32, b: u32|
                (a, b) != (from, to) ==> (final(self).has_edge(a, b) <==> old(self).has_edge(a, b)),
            final(self).edge_count() <= old(self).edge_count() + 1,
    {
        proof {
            if old(self).has_edge(from, to) {
                let e0 = old(self).lemma_has_edge_witness(from, to);
            }
        }
        store_update_edge(&mut self.store, from, to);
        proof {
            broadcast use vstd::set::group_set_axioms;

            let old_edges = store_edges(old(self).store);
            let new_edges = store_edges(self.store);
            if exists|e: u32| old_edges.dom().contains(e) && old_edges[e] == (from, to) {
                let e0 = choose|e: u32| old_edges.dom().contains(e) && old_edges[e] == (from, to);
                assert(new_edges == old_edges);
                self.lemma_has_edge_intro(from, to, e0);
                assert forall|a: u32, b: u32| (a, b) != (from, to) implies (self.has_edge(a, b)
                    <==> old(self).has_edge(a, b)) by {
                    if self.has_edge(a, b) {
                        let e = self.lemma_has_edge_witness(a, b);
                        old(self).lemma_has_edge_intro(a, b, e);
                    }
                    if old(self).has_edge(a, b) {
                        let e = old(self).lemma_has_edge_witness(a, b);
                        self.lemma_has_edge_intro(a, b, e);
                    }
                }
            } else {
                let e1 = choose|e: u32|
                    !old_edges.dom().contains(e) && new_edges == old_edges.insert(e, (from, to));
                self.lemma_has_edge_intro(from, to, e1);
                assert forall|a: u32, b: u32| (a, b) != (from, to) implies (self.has_edge(a, b)
                    <==> old(self).has_edge(a, b)) by {
                    if self.has_edge(a, b) {
                        let e = self.lemma_has_edge_witness(a, b);
                        assert(e != e1);
                        old(self).lemma_has_edge_intro(a, b, e);
                    }
                    if old(self).has_edge(a, b) {
                        let e = old(self).lemma_has_edge_witness(a, b);
                        assert(e != e1);
                        self.lemma_has_edge_intro(a, b, e);
                    }
                }
            }
        }
    }

    /// True when an edge runs from `from` to `to`.
    pub fn contains_edge(&self, from: u32, to: u32) -> (r: bool)
        ensures
            r == self.has_edge(from, to),
    {
        let found = store_find_edge(&self.store, from, to);
        proof {
            match found {
                Some(e) => {
                    self.lemma_has_edge_intro(from, to, e);
                },
                None => {
                    if self.has_edge(from, to) {
                        let e = self.lemma_has_edge_witness(from, to);
                    }
                },
            }
        }
        found.is_some()
    }

    /// Removes the edge from `from` to `to`, if one is there.
    pub fn remove_edge_between(&mut self, from: u32, to: u32)
        requires
            old(self).wf(),
        ensures
            final(self).wf(),
            final(self).hosts == old(self).hosts,
            final(self).node_ids() == old(self).node_ids(),
            !final(self).has_edge(from, to),
            forall|a: u32, b: u32|
                (a, b) != (from, to) ==> (final(self).has_edge(a, b) <==> old(self).has_edge(a, b)),
            final(self).edge_count() <= old(self).edge_count(),
    {
        let found = store_find_edge(&self.store, from, to);
        match found {
            Some(e) => {
                store_remove_edge(&mut self.store, e);
                proof {
                    broadcast use vstd::set::group_set_axioms;

                    let old_edges = store_edges(old(self).store);
                    let new_edges = store_edges(self.store);
                    if self.has_edge(from, to) {
                        let e2 = self.lemma_has_edge_witness(from, to);
                        assert(old_edges.dom().contains(e2) && old_edges[e2] == (from, to));
                        assert(e2 == e);
                        assert(false);
                    }
                    assert forall|a: u32, b: u32| (a, b) != (from, to) implies (self.has_edge(a, b)
                        <==> old(self).has_edge(a, b)) by {
                        if self.has_edge(a, b) {
                            let e2 = self.lemma_has_edge_witness(a, b);
                            old(self).lemma_has_edge_intro(a, b, e2);
                        }
                        if old(self).has_edge(a, b) {
                            let e2 = old(self).lemma_has_edge_witness(a, b);
                            assert(e2 != e);
                            self.lemma_has_edge_intro(a, b, e2);
                        }
                    }
                }
            },
            None => {
                proof {
                    if self.has_edge(from, to) {
                        let e2 = self.lemma_has_edge_witness(from, to);
                    }
                }
            },
        }
    }

    /// Removes every outgoing edge of `from`.
    pub fn remove_edges_from_node(&mut self, from: u32)
        requires
            old(self).wf(),
        ensures
            final(self).wf(),
            final(self).hosts == old(self).hosts,
            final(self).node_ids() == old(self).node_ids(),
            forall|b: u32| !final(self).has_edge(from, b),
            forall|a: u32, b: u32|
                a != from ==> (final(self).has_edge(a, b) <==> old(self).has_edge(a, b)),
            final(self).edge_count() <= old(self).edge_count(),
    {
        let edge_ids = store_out_edges(&self.store, from);
        let ghost old_edges = store_edges(old(self).store);
        let mut k: usize = 0;
        while k < edge_ids.len()
            invariant
                k <= edge_ids@.len(),
                self.hosts == old(self).hosts,
                store_nodes(self.store) == store_nodes(old(self).store),
                forall|i: int, j: int| 0 <= i < j < edge_ids@.len() ==> edge_ids@[i] != edge_ids@[j],
                forall|i: int|
                    0 <= i < edge_ids@.len() ==> old_edges.dom().contains(#[trigger] edge_ids@[i])
                        && old_edges[edge_ids@[i]].0 == from,
                forall|e: u32|
                    old_edges.dom().contains(e) && old_edges[e].0 == from ==> edge_ids@.contains(e),
                forall|e: u32|
                    store_edges(self.store).dom().contains(e) <==> (old_edges.dom().contains(e)
                        && !(exists|i: int| 0 <= i < k && edge_ids@[i] == e)),
                forall|e: u32| #[trigger]
                    store_edges(self.store).dom().contains(e) ==> store_edges(self.store)[e]
                        == old_edges[e],
            decreases edge_ids@.len() - k,
        {
            store_remove_edge(&mut self.store, edge_ids[k]);
            proof {
                assert forall|e: u32| store_edges(self.store).dom().contains(e) <==> (
                    old_edges.dom().contains(e) && !(exists|i: int|
                    0 <= i < k + 1 && edge_ids@[i] == e)) by {
                    if e == edge_ids@[k as int] {
                        assert(exists|i: int| 0 <= i < k + 1 && edge_ids@[i] == e);
                    }
                }
            }
            k = k + 1;
        }
        proof {
            broadcast use vstd::set::group_set_axioms;

            let new_edges = store_edges(self.store);
            assert(new_edges.dom().subset_of(old_edges.dom()));
            vstd::set_lib::lemma_len_subset(new_edges.dom(), old_edges.dom());
            assert forall|b: u32| !self.has_edge(from, b) by {
                if self.has_edge(from, b) {
                    let e = self.lemma_has_edge_witness(from, b);
                    assert(old_edges[e].0 == from);
                    assert(edge_ids@.contains(e));
                    let i = choose|i: int| 0 <= i < edge_ids@.len() && edge_ids@[i] == e;
                    assert(exists|j: int| 0 <= j < edge_ids@.len() && edge_ids@[j] == e);
                }
            }
            assert forall|a: u32, b: u32| a != from implies (self.has_edge(a, b) <==> old(
                self,
            ).has_edge(a, b)) by {
                if self.has_edge(a, b) {
                    let e = self.lemma_has_edge_witness(a, b);
                    old(self).lemma_has_edge_intro(a, b, e);
                }
                if old(self).has_edge(a, b) {
                    let e = old(self).lemma_has_edge_witness(a, b);
                    assert(old_edges[e].0 != from);
                    assert(new_edges.dom().contains(e)) by {
                        if exists|i: int| 0 <= i < edge_ids@.len() && edge_ids@[i] == e {
                            let i = choose|i: int|
                                0 <= i < edge_ids@.len() && edge_ids@[i] == e;
                            assert(old_edges[edge_ids@[i]].0 == from);
                            assert(false);
                        }
                    }
                    self.lemma_has_edge_intro(a, b, e);
                }
            }
        }
    }

    /// Removes the node with id `id`, if it is there, along with every
    /// edge that touches it.
    pub fn remove_node(&mut self, id: u32)
        requires
            old(self).wf(),
        ensures
            final(self).wf(),
            final(self).node_ids() == old(self).node_ids().remove(id),
            !old(self).has_id(id) ==> final(self).hosts@ == old(self).hosts@,
            forall|pos: int|
                0 <= pos < old(self).hosts@.len() && (#[trigger] old(self).hosts@[pos]).id == id
                    ==> final(self).hosts@ == old(self).hosts@.remove(pos),
            forall|a: u32, b: u32|
                final(self).has_edge(a, b) <==> (old(self).has_edge(a, b) && a != id && b != id),
    {
        let pos_opt = Self::find_pos_by_id(&self.hosts, id);
        store_remove_node(&mut self.store, id);
        match pos_opt {
            Some(p) => {
                self.hosts.remove(p);
                proof {
                    broadcast use vstd::set::group_set_axioms;

                    let oh = old(self).hosts@;
                    let nh = self.hosts@;
                    assert(nh =~= oh.subrange(0, p as int) + oh.subrange(p as int + 1, oh.len() as int));
                    assert forall|i: int| 0 <= i < nh.len() implies #[trigger] nh[i] == (if i
                        < p as int {
                        oh[i]
                    } else {
                        oh[i + 1]
                    }) by {}
                    assert forall|x: u32| store_nodes(self.store).contains(x) implies exists|i: int|
                        0 <= i < nh.len() && (#[trigger] nh[i]).id == x by {
                        let i = choose|i: int| 0 <= i < oh.len() && (#[trigger] oh[i]).id == x;
                        assert(i != p);
                        if i < p as int {
                            assert(nh[i].id == x);
                        } else {
                            assert(nh[i - 1].id == x);
                        }
                    }
                    assert forall|x: u32| (exists|i: int|
                        0 <= i < nh.len() && (#[trigger] nh[i]).id == x) implies store_nodes(
                        self.store,
                    ).contains(x) by {
                        let i = choose|i: int| 0 <= i < nh.len() && (#[trigger] nh[i]).id == x;
                        if i < p as int {
                            assert(oh[i].id == x);
                            assert(x != id);
                        } else {
                            assert(oh[i + 1].id == x);
                            assert(x != id);
                        }
                    }
                    self.lemma_remove_node_edges(*old(self), id);
                }
            },
            None => {
                proof {
                    broadcast use vstd::set::group_set_axioms;

                    assert(store_nodes(self.store) =~= store_nodes(old(self).store));
                    self.lemma_remove_node_edges(*old(self), id);
                }
            },
        }
    }

    /// After a cascade removal the edges are exactly the old ones that
    /// avoid `id`.
    proof fn lemma_remove_node_edges(self, prev: Self, id: u32)
        requires
            prev.wf(),
            forall|e: u32|
                self.edges().dom().contains(e) <==> (prev.edges().dom().contains(e)
                    && prev.edges()[e].0 != id && prev.edges()[e].1 != id),
            forall|e: u32| #[trigger]
                self.edges().dom().contains(e) ==> self.edges()[e] == prev.edges()[e],
        ensures
            self.edges().dom().finite(),
            self.edges().dom().len() <= prev.edges().dom().len(),
            forall|a: u32, b: u32|
                self.has_edge(a, b) <==> (prev.has_edge(a, b) && a != id && b != id),
            forall|e1: u32, e2: u32|
                self.edges().dom().contains(e1) && self.edges().dom().contains(e2)
                    && #[trigger] self.edges()[e1] == #[trigger] self.edges()[e2] ==> e1 == e2,
    {
        assert(self.edges().dom().subset_of(prev.edges().dom()));
        vstd::set_lib::lemma_len_subset(self.edges().dom(), prev.edges().dom());
        assert forall|a: u32, b: u32| self.has_edge(a, b) <==> (prev.has_edge(a, b) && a != id && b
            != id) by {
            if self.has_edge(a, b) {
                let e = self.lemma_has_edge_witness(a, b);
                prev.lemma_has_edge_intro(a, b, e);
            }
            if prev.has_edge(a, b) && a != id && b != id {
                let e = prev.lemma_has_edge_witness(a, b);
                self.lemma_has_edge_intro(a, b, e);
            }
        }
    }

    /// Replaces the hostname of node `id`; false when the node is gone.
    pub fn set_hostname(&mut self, id: u32, hostname: String) -> (r: bool)
        requires
            old(self).wf(),
        ensures
            final(self).wf(),
            final(self).node_ids() == old(self).node_ids(),
            final(self).edges() == old(self).edges(),
            !r ==> *final(self) == *old(self) && !old(self).has_id(id),
            r ==> old(self).has_id(id) && exists|pos: int|
                0 <= pos < old(self).hosts@.len() && (#[trigger] old(self).hosts@[pos]).id == id
                    && final(self).hosts@ == old(self).hosts@.update(pos, final(self).hosts@[pos])
                    && final(self).hosts@[pos].id == id && final(self).hosts@[pos].node.ip == old(
                    self,
                ).hosts@[pos].node.ip && final(self).hosts@[pos].node.is_localhost == old(
                    self,
                ).hosts@[pos].node.is_localhost && final(self).hosts@[pos].node.notes == old(
                    self,
                ).hosts@[pos].node.notes && final(self).hosts@[pos].node.opened_ports == old(
                    self,
                ).hosts@[pos].node.opened_ports && final(self).hosts@[pos].node.hostname == hostname
                    && final(self).hosts@[pos].label == old(self).hosts@[pos].label,
    {
        match Self::find_pos_by_id(&self.hosts, id) {
            Some(p) => {
                let mut entry = self.hosts.remove(p);
                entry.node.hostname = hostname;
                self.hosts.insert(p, entry);
                proof {
                    assert(self.hosts@ =~= old(self).hosts@.update(
                        p as int,
                        self.hosts@[p as int],
                    ));
                    self.lemma_update_keeps_wf(*old(self), p as int);
                }
                true
            },
            None => {
                false
            },
        }
    }

    /// Updating one entry in place, with its id, address and local flag
    /// kept, preserves the invariant.
    proof fn lemma_update_keeps_wf(self, prev: Self, pos: int)
        requires
            prev.wf(),
            0 <= pos < prev.hosts@.len(),
            self.store == prev.store,
            self.hosts@ == prev.hosts@.update(pos, self.hosts@[pos]),
            self.hosts@.len() == prev.hosts@.len(),
            self.hosts@[pos].id == prev.hosts@[pos].id,
            self.hosts@[pos].node.ip == prev.hosts@[pos].node.ip,
            self.hosts@[pos].node.is_localhost == prev.hosts@[pos].node.is_localhost,
        ensures
            self.wf(),
    {
        assert forall|x: u32| store_nodes(self.store).contains(x) implies exists|i: int|
            0 <= i < self.hosts@.len() && (#[trigger] self.hosts@[i]).id == x by {
            let i = choose|i: int| 0 <= i < prev.hosts@.len() && (#[trigger] prev.hosts@[i]).id == x;
            assert(self.hosts@[i].id == x);
        }
        assert forall|x: u32| (exists|i: int|
            0 <= i < self.hosts@.len() && (#[trigger] self.hosts@[i]).id == x) implies store_nodes(
            self.store,
        ).contains(x) by {
            let i = choose|i: int| 0 <= i < self.hosts@.len() && (#[trigger] self.hosts@[i]).id == x;
            assert(prev.hosts@[i].id == x);
        }
    }

    /// Refreshes the cached label of node `id` from its current data; a
    /// missing node is left alone.
    pub fn update_node_label(&mut self, id: u32)
        requires
            old(self).wf(),
        ensures
            final(self).wf(),
            final(self).node_ids() == old(self).node_ids(),
            final(self).edges() == old(self).edges(),
            !old(self).has_id(id) ==> *final(self) == *old(self),
            old(self).has_id(id) ==> exists|pos: int|
                0 <= pos < old(self).hosts@.len() && (#[trigger] old(self).hosts@[pos]).id == id
                    && final(self).hosts@ == old(self).hosts@.update(pos, final(self).hosts@[pos])
                    && final(self).hosts@[pos].id == id && final(self).hosts@[pos].node == old(
                    self,
                ).hosts@[pos].node && final(self).hosts@[pos].label@ == label_of(
                    old(self).hosts@[pos].node@,
                ),
    {
        match Self::find_pos_by_id(&self.hosts, id) {
            Some(p) => {
                let mut entry = self.hosts.remove(p);
                entry.label = Self::generate_node_label(&entry.node);
                self.hosts.insert(p, entry);
                proof {
                    assert(self.hosts@ =~= old(self).hosts@.update(
                        p as int,
                        self.hosts@[p as int],
                    ));
                    self.lemma_update_keeps_wf(*old(self), p as int);
                }
            },
            None => {
                proof {
                    if old(self).has_id(id) {
                        let i = choose|i: int|
                            0 <= i < old(self).hosts@.len() && (#[trigger] old(
                                self,
                            ).hosts@[i]).id == id;
                    }
                }
            },
        }
    }

    /// Appends a scan's open-port records to node `id`; false — and no
    /// change — when the node was deleted in the meantime.
    pub fn append_ports(&mut self, id: u32, new_ports: Vec<PortInfo>) -> (r: bool)
        requires
            old(self).wf(),
        ensures
            final(self).wf(),
            final(self).node_ids() == old(self).node_ids(),
            final(self).edges() == old(self).edges(),
            !r ==> *final(self) == *old(self) && !old(self).has_id(id),
            r ==> old(self).has_id(id) && exists|pos: int|
                0 <= pos < old(self).hosts@.len() && (#[trigger] old(self).hosts@[pos]).id == id
                    && final(self).hosts@ == old(self).hosts@.update(pos, final(self).hosts@[pos])
                    && final(self).hosts@[pos].id == id && final(self).hosts@[pos].node.ip == old(
                    self,
                ).hosts@[pos].node.ip && final(self).hosts@[pos].node.is_localhost == old(
                    self,
                ).hosts@[pos].node.is_localhost && final(self).hosts@[pos].node.notes == old(
                    self,
                ).hosts@[pos].node.notes && final(self).hosts@[pos].node.hostname == old(
                    self,
                ).hosts@[pos].node.hostname && final(self).hosts@[pos].label == old(
                    self,
                ).hosts@[pos].label && port_views(final(self).hosts@[pos].node.opened_ports@)
                    == port_views(old(self).hosts@[pos].node.opened_ports@) + port_views(new_ports@),
    {
        match Self::find_pos_by_id(&self.hosts, id) {
            Some(p) => {
                let mut tail = new_ports;
                let mut entry = self.hosts.remove(p);
                entry.node.opened_ports.append(&mut tail);
                self.hosts.insert(p, entry);
                proof {
                    assert(self.hosts@ =~= old(self).hosts@.update(
                        p as int,
                        self.hosts@[p as int],
                    ));
                    lemma_port_views_add(
                        old(self).hosts@[p as int].node.opened_ports@,
                        new_ports@,
                    );
                    self.lemma_update_keeps_wf(*old(self), p as int);
                }
                true
            },
            None => {
                false
            },
        }
    }

    /// The non-local hosts, in insertion order, as clones beside their ids.
    pub fn get_all_nodes_except_localhost(&self) -> (r: Vec<(u32, NetworkTopologyNode)>)
        requires
            self.wf(),
        ensures
            pair_views(r@) == non_localhost_of(self.host_views()),
    {
        let mut out: Vec<(u32, NetworkTopologyNode)> = Vec::new();
        let mut i: usize = 0;
        proof {
            assert(self.host_views().take(0) =~= Seq::<(u32, NodeView)>::empty());
            lemma_non_localhost_empty();
            assert(pair_views(out@) =~= Seq::<(u32, NodeView)>::empty());
        }
        while i < self.hosts.len()
            invariant
                self.wf(),
                i <= self.hosts@.len(),
                out@.len() <= i,
                pair_views(out@) == non_localhost_of(self.host_views().take(i as int)),
            decreases self.hosts@.len() - i,
        {
            proof {
                assert(self.host_views().take(i as int + 1) =~= self.host_views().take(
                    i as int,
                ).push(self.host_views()[i as int]));
                lemma_non_localhost_push(
                    self.host_views().take(i as int),
                    self.host_views()[i as int],
                );
            }
            let entry = &self.hosts[i];
            if !entry.node.is_localhost {
                let pair = (entry.id, entry.node.clone());
                proof {
                    lemma_pair_views_push(out@, (entry.id, entry.node@));
                }
                out.push(pair);
                proof {
                    assert(pair_views(out@) =~= non_localhost_of(
                        self.host_views().take(i as int + 1),
                    ));
                }
            }
            i = i + 1;
        }
        proof {
            assert(self.host_views().take(self.hosts@.len() as int) =~= self.host_views());
        }
        out
    }

    /// The addresses of the non-local hosts, in insertion order.
    pub fn get_all_ips_except_localhost(&self) -> (r: Vec<IpAddress>)
        requires
            self.wf(),
        ensures
            r@ == ips_of(non_localhost_of(self.host_views())),
    {
        let nodes = self.get_all_nodes_except_localhost();
        let mut out: Vec<IpAddress> = Vec::new();
        let mut i: usize = 0;
        while i < nodes.len()
            invariant
                i <= nodes@.len(),
                pair_views(nodes@) == non_localhost_of(self.host_views()),
                out@ == ips_of(pair_views(nodes@)).take(i as int),
            decreases nodes@.len() - i,
        {
            out.push(nodes[i].1.ip);
            proof {
                assert(out@ =~= ips_of(pair_views(nodes@)).take(i as int + 1));
            }
            i = i + 1;
        }
        proof {
            assert(ips_of(pair_views(nodes@)).take(nodes@.len() as int) =~= ips_of(
                pair_views(nodes@),
            ));
        }
        out
    }
}

} // verus!