//! The hostname resolver.
//!
//! One resolve run narrows the non-local hosts down to the requested
//! addresses and walks them in order; the reverse-DNS lookup itself runs
//! outside the library, and each answer is handed back in.  A name that
//! arrives is written into the node and its display label is refreshed;
//! a failed lookup skips the host and the run goes on.

use vstd::prelude::*;
use vstd::string::StringExecFns;
use crate::net::IpAddress;
use crate::status::StatusMessage;
use crate::textfmt::{dec_seq, ip_string, ip_to_string, u64_to_dec_string};
use crate::topology::{label_of, non_localhost_of, pair_views, NetworkTopology, NodeView};

verus! {

/// The log line when no requested address matches a non-local host.
pub open spec fn msg_no_intercept_text() -> Seq<char> {
    "Didn't find intercept of ips and nodes in graph. Not performing hostname resolution against graph."@
}

/// The log line that opens a resolve run over `n` hosts.
pub open spec fn msg_lookup_start_text(n: int) -> Seq<char> {
    "Initiating addr lookup against "@ + dec_seq(n) + " hosts."@
}

/// The log line before one host's lookup.
pub open spec fn msg_lookup_host_text(ip: IpAddress) -> Seq<char> {
    "Performing DNS lookup-up for hostname for "@ + ip_string(ip)
}

/// The log line when a lookup gave no name.
pub open spec fn msg_lookup_failed_text(ip: IpAddress) -> Seq<char> {
    "Unable to determine hostname for "@ + ip_string(ip)
}

/// The log line when a lookup answered.
pub open spec fn msg_lookup_ok_text(ip: IpAddress, hostname: Seq<char>) -> Seq<char> {
    "Hostname for "@ + ip_string(ip) + " is \""@ + hostname + "\""@
}

/// The warning when the host was deleted before its name arrived.
pub open spec fn msg_lookup_gone_text() -> Seq<char> {
    "Unable to update the hostname. The node got removed mid-run."@
}

/// The log line that closes a resolve run.
pub open spec fn msg_lookup_done_text() -> Seq<char> {
    "Finished addr lookup."@
}

fn build_msg_lookup_start(n: u64) -> (r: String)
    ensures
        r@ == msg_lookup_start_text(n as int),
{
    let mut s = String::from_str("Initiating addr lookup against ");
    s.append(u64_to_dec_string(n).as_str());
    s.append(" hosts.");
    proof {
        assert(s@ =~= msg_lookup_start_text(n as int));
    }
    s
}

fn build_msg_lookup_host(ip: IpAddress) -> (r: String)
    ensures
        r@ == msg_lookup_host_text(ip),
{
    let mut s = String::from_str("Performing DNS lookup-up for hostname for ");
    s.append(ip_to_string(ip).as_str());
    proof {
        assert(s@ =~= msg_lookup_host_text(ip));
    }
    s
}

fn build_msg_lookup_failed(ip: IpAddress) -> (r: String)
    ensures
        r@ == msg_lookup_failed_text(ip),
{
    let mut s = String::from_str("Unable to determine hostname for ");
    s.append(ip_to_string(ip).as_str());
    proof {
        assert(s@ =~= msg_lookup_failed_text(ip));
    }
    s
}

fn build_msg_lookup_ok(ip: IpAddress, hostname: &str) -> (r: String)
    ensures
        r@ == msg_lookup_ok_text(ip, hostname@),
{
    let mut s = String::from_str("Hostname for ");
    s.append(ip_to_string(ip).as_str());
    s.append(" is \"");
    s.append(hostname);
    s.append("\"");
    proof {
        assert(s@ =~= msg_lookup_ok_text(ip, hostname@));
    }
    s
}

/// The non-local hosts whose address is in the request.
pub open spec fn kept_targets(s: Seq<(u32, NodeView)>, ips: Seq<IpAddress>) -> Seq<(u32, NodeView)> {
    s.filter(|h: (u32, NodeView)| ips.contains(h.1.ip))
}

/// Id and address of each kept host.
pub open spec fn target_pairs(s: Seq<(u32, NodeView)>) -> Seq<(u32, IpAddress)> {
    s.map_values(|h: (u32, NodeView)| (h.0, h.1.ip))
}

proof fn lemma_kept_push(s: Seq<(u32, NodeView)>, x: (u32, NodeView), ips: Seq<IpAddress>)
    ensures
        kept_targets(s.push(x), ips) == if ips.contains(x.1.ip) {
            kept_targets(s, ips).push(x)
        } else {
            kept_targets(s, ips)
        },
{
    reveal(Seq::filter);
    assert(s.push(x).drop_last() =~= s);
    assert(s.push(x).last() == x);
}

proof fn lemma_target_pairs_push(s: Seq<(u32, NodeView)>, x: (u32, NodeView))
    ensures
        target_pairs(s.push(x)) == target_pairs(s).push((x.0, x.1.ip)),
{
    let l = target_pairs(s.push(x));
    let r = target_pairs(s).push((x.0, x.1.ip));
    assert(l.len() == r.len());
    assert forall|k: int| 0 <= k < l.len() implies #[trigger] l[k] == r[k] by {
        if k < s.len() {
            assert(s.push(x)[k] == s[k]);
            assert(r[k] == target_pairs(s)[k]);
        } else {
            assert(s.push(x)[k] == x);
        }
    }
    assert(l =~= r);
}

fn ip_list_contains(ips: &Vec<IpAddress>, ip: IpAddress) -> (r: bool)
    ensures
        r == ips@.contains(ip),
{
    let mut i: usize = 0;
    while i < ips.len()
        invariant
            i <= ips@.len(),
            forall|k: int| 0 <= k < i ==> ips@[k] != ip,
        decreases ips@.len() - i,
    {
        if ips[i] == ip {
            proof {
                assert(ips@[i as int] == ip);
            }
            return true;
        }
        i = i + 1;
    }
    false
}

/// One resolve run: the kept hosts — id and address — in graph order, and
/// the lookup position.
pub struct ResolveJob {
    pub targets: Vec<(u32, IpAddress)>,
    pub pos: usize,
}

/// Opens a resolve run over the non-local hosts whose address is in
/// `ips`.  When none matches, no job starts and exactly one
/// informational line says so; otherwise the job is handed back with
/// one line counting its targets.  No lookup happens here.
pub fn update_hostname_list(topo: &NetworkTopology, ips: Vec<IpAddress>) -> (r: (
    Option<ResolveJob>,
    Vec<StatusMessage>,
))
    requires
        topo.wf(),
    ensures
        r.1@.len() == 1,
        r.1@[0].is_info(),
        ({
            let expected = target_pairs(
                kept_targets(non_localhost_of(topo.host_views()), ips@),
            );
            match r.0 {
                None => expected.len() == 0 && r.1@[0].text() == msg_no_intercept_text(),
                Some(job) => {
                    &&& job.targets@ == expected
                    &&& expected.len() > 0
                    &&& job.pos == 0
                    &&& r.1@[0].text() == msg_lookup_start_text(expected.len() as int)
                },
            }
        }),
{
    let nodes = topo.get_all_nodes_except_localhost();
    let mut targets: Vec<(u32, IpAddress)> = Vec::new();
    let mut i: usize = 0;
    proof {
        assert(pair_views(nodes@).take(0) =~= Seq::<(u32, NodeView)>::empty());
        reveal(Seq::filter);
        assert(targets@ =~= target_pairs(
            kept_targets(pair_views(nodes@).take(0), ips@),
        ));
    }
    while i < nodes.len()
        invariant
            i <= nodes@.len(),
            targets@ == target_pairs(kept_targets(pair_views(nodes@).take(i as int), ips@)),
        decreases nodes@.len() - i,
    {
        proof {
            assert(pair_views(nodes@).take(i as int + 1) =~= pair_views(nodes@).take(
                i as int,
            ).push(pair_views(nodes@)[i as int]));
            lemma_kept_push(
                pair_views(nodes@).take(i as int),
                pair_views(nodes@)[i as int],
                ips@,
            );
            lemma_target_pairs_push(
                kept_targets(pair_views(nodes@).take(i as int), ips@),
                pair_views(nodes@)[i as int],
            );
        }
        let node_ip = nodes[i].1.ip;
        if ip_list_contains(&ips, node_ip) {
            let id = nodes[i].0;
            targets.push((id, node_ip));
            proof {
                assert(pair_views(nodes@)[i as int] == (nodes@[i as int].0, nodes@[i as int].1@));
                assert(targets@ =~= target_pairs(
                    kept_targets(pair_views(nodes@).take(i as int + 1), ips@),
                ));
            }
        }
        i = i + 1;
    }
    proof {
        assert(pair_views(nodes@).take(nodes@.len() as int) =~= pair_views(nodes@));
    }
    let mut msgs: Vec<StatusMessage> = Vec::new();
    if targets.len() == 0 {
        msgs.push(
            StatusMessage::Info(
                String::from_str(
                    "Didn't find intercept of ips and nodes in graph. Not performing hostname resolution against graph.",
                ),
            ),
        );
        (None, msgs)
    } else {
        msgs.push(StatusMessage::Info(build_msg_lookup_start(targets.len() as u64)));
        (Some(ResolveJob { targets, pos: 0 }), msgs)
    }
}

impl ResolveJob {
    /// The next host to look up, with the line announcing it.
    pub fn next_lookup(&self) -> (r: (Option<(u32, IpAddress)>, Vec<StatusMessage>))
        ensures
            self.pos < self.targets@.len() ==> r.0 == Some(self.targets@[self.pos as int])
                && r.1@.len() == 1 && r.1@[0].is_info() && r.1@[0].text() == msg_lookup_host_text(
                self.targets@[self.pos as int].1,
            ),
            self.pos >= self.targets@.len() ==> r.0 is None && r.1@.len() == 0,
    {
        if self.pos < self.targets.len() {
            let target = self.targets[self.pos];
            let mut msgs: Vec<StatusMessage> = Vec::new();
            msgs.push(StatusMessage::Info(build_msg_lookup_host(target.1)));
            (Some(target), msgs)
        } else {
            (None, Vec::new())
        }
    }

    /// Digests one lookup's answer.  No name: one line, nothing changes.
    /// A name: it is written into the host's node and the display label is
    /// refreshed — unless the node was deleted in the meantime, which
    /// leaves one warning and no change.
    pub fn on_lookup_result(
        &mut self,
        topo: &mut NetworkTopology,
        hostname: Option<String>,
    ) -> (msgs: Vec<StatusMessage>)
        requires
            old(self).pos < old(self).targets@.len(),
            old(topo).wf(),
        ensures
            final(self).targets@ == old(self).targets@,
            final(self).pos == old(self).pos + 1,
            final(topo).wf(),
            final(topo).node_ids() == old(topo).node_ids(),
            final(topo).edges() == old(topo).edges(),
            ({
                let target = old(self).targets@[old(self).pos as int];
                match hostname {
                    None => *final(topo) == *old(topo) && msgs@.len() == 1 && msgs@[0].is_info()
                        && msgs@[0].text() == msg_lookup_failed_text(target.1),
                    Some(h) => {
                        if old(topo).has_id(target.0) {
                            &&& msgs@.len() == 1
                            &&& msgs@[0].is_info()
                            &&& msgs@[0].text() == msg_lookup_ok_text(target.1, h@)
                            &&& exists|p: int|
                                0 <= p < old(topo).hosts@.len() && (#[trigger] old(topo).hosts@[p]).id == target.0 && final(topo).hosts@ == old(topo).hosts@.update(p, final(topo).hosts@[p]) && final(topo).hosts@[p].id == target.0 && final(topo).hosts@[p].node.ip == old(topo).hosts@[p].node.ip && final(topo).hosts@[p].node.hostname == h
                                    && final(topo).hosts@[p].node.opened_ports == old(topo).hosts@[p].node.opened_ports && final(topo).hosts@[p].label@
                                    == label_of(final(topo).hosts@[p].node@)
                        } else {
                            &&& *final(topo) == *old(topo)
                            &&& msgs@.len() == 1
                            &&& msgs@[0].is_warn()
                            &&& msgs@[0].text() == msg_lookup_gone_text()
                        }
                    },
                }
            }),
    {
        let total = self.targets.len();
        let target = self.targets[self.pos];
        self.pos = self.pos + 1;
        let mut msgs: Vec<StatusMessage> = Vec::new();
        match hostname {
            None => {
                msgs.push(StatusMessage::Info(build_msg_lookup_failed(target.1)));
            },
            Some(h) => {
                let ghost topo0 = *topo;
                let updated = topo.set_hostname(target.0, h.clone());
                if updated {
                    let ghost topo1 = *topo;
                    topo.update_node_label(target.0);
                    proof {
                        let p1 = choose|p: int|
                            0 <= p < topo0.hosts@.len() && (#[trigger] topo0.hosts@[p]).id
                                == target.0 && topo1.hosts@ == topo0.hosts@.update(
                                p,
                                topo1.hosts@[p],
                            ) && topo1.hosts@[p].id == target.0 && topo1.hosts@[p].node.ip
                                == topo0.hosts@[p].node.ip && topo1.hosts@[p].node.is_localhost
                                == topo0.hosts@[p].node.is_localhost && topo1.hosts@[p].node.notes
                                == topo0.hosts@[p].node.notes && topo1.hosts@[p].node.opened_ports
                                == topo0.hosts@[p].node.opened_ports && topo1.hosts@[p].node.hostname
                                == h && topo1.hosts@[p].label == topo0.hosts@[p].label;
                        assert(topo1.has_id(target.0));
                        let p2 = choose|p: int|
                            0 <= p < topo1.hosts@.len() && (#[trigger] topo1.hosts@[p]).id
                                == target.0 && topo.hosts@ == topo1.hosts@.update(
                                p,
                                topo.hosts@[p],
                            ) && topo.hosts@[p].id == target.0 && topo.hosts@[p].node
                                == topo1.hosts@[p].node && topo.hosts@[p].label@ == label_of(
                                topo1.hosts@[p].node@,
                            );
                        assert(topo1.hosts@[p2].id == target.0);
                        if p1 != p2 {
                            assert(topo1.hosts@[p1].id == target.0);
                            assert(false);
                        }
                        assert(topo.hosts@ =~= topo0.hosts@.update(p1, topo.hosts@[p1]));
                    }
                    msgs.push(StatusMessage::Info(build_msg_lookup_ok(target.1, h.as_str())));
                } else {
                    msgs.push(
                        StatusMessage::Warn(
                            String::from_str(
                                "Unable to update the hostname. The node got removed mid-run.",
                            ),
                        ),
                    );
                }
            },
        }
        msgs
    }

    /// The line that closes a resolve run.
    pub fn finish(&self) -> (msgs: Vec<StatusMessage>)
        requires
            self.pos >= self.targets@.len(),
        ensures
            msgs@.len() == 1,
            msgs@[0].is_info(),
            msgs@[0].text() == msg_lookup_done_text(),
    {
        let mut msgs: Vec<StatusMessage> = Vec::new();
        msgs.push(StatusMessage::Info(String::from_str("Finished addr lookup.")));
        msgs
    }
}

} // verus!
