//! Plain state behind the tool's windows and tabs.
//!
//! The drawing itself happens outside the library; what lives here is the
//! data the windows carry — titles, form fields, open flags — the default
//! tab set, the project directory layout, and the decision taken when the
//! operator adds the local machine to the graph.

use vstd::prelude::*;
use vstd::string::StringExecFns;
use crate::net::IpAddress;
use crate::textfmt::ip_string;
use crate::topology::{NetworkTopology, NetworkTopologyNode};

verus! {

/// A modal window that shows one message until dismissed.
pub struct GenericInfoWindowState {
    pub open: bool,
    pub title: String,
    pub text: String,
}

impl GenericInfoWindowState {
    /// A closed window with the given title and no text yet.
    pub fn new(title: &str) -> (r: Self)
        ensures
            r.open == false,
            r.title@ == title@,
            r.text@ == Seq::<char>::empty(),
    {
        GenericInfoWindowState { open: false, title: String::from_str(title), text: String::new() }
    }

    /// Opens the window over the given text.
    pub fn show(&mut self, text: String)
        ensures
            final(self).open == true,
            final(self).text == text,
            final(self).title == old(self).title,
    {
        self.open = true;
        self.text = text;
    }

    /// Closes the window and drops its text.
    pub fn hide_window(&mut self)
        ensures
            final(self).open == false,
            final(self).text@ == Seq::<char>::empty(),
            final(self).title == old(self).title,
    {
        self.open = false;
        self.text = String::new();
    }
}

/// One dockable tab: its internal id and the title drawn on it.
#[derive(Debug)]
pub struct WorkspaceTab {
    pub id: String,
    pub title: String,
}

impl Clone for WorkspaceTab {
    fn clone(&self) -> (r: Self)
        ensures
            r.id@ == self.id@,
            r.title@ == self.title@,
    {
        WorkspaceTab { id: self.id.clone(), title: self.title.clone() }
    }
}

impl PartialEq for WorkspaceTab {
    fn eq(&self, other: &Self) -> (r: bool) {
        self.id == other.id && self.title == other.title
    }
}

impl vstd::std_specs::cmp::PartialEqSpecImpl for WorkspaceTab {
    open spec fn obeys_eq_spec() -> bool {
        true
    }

    open spec fn eq_spec(&self, other: &Self) -> bool {
        self.id@ == other.id@ && self.title@ == other.title@
    }
}

impl WorkspaceTab {
    pub fn new(id: &str, title: &str) -> (r: WorkspaceTab)
        ensures
            r.id@ == id@,
            r.title@ == title@,
    {
        WorkspaceTab { id: String::from_str(id), title: String::from_str(title) }
    }
}

/// The tabs a fresh workspace opens with, in layout order.
pub fn default_tabs() -> (r: Vec<WorkspaceTab>)
    ensures
        r@.len() == 11,
        r@[0].id@ == "meta_tab"@ && r@[0].title@ == "General"@,
        r@[1].id@ == "discovery_shared_tab"@ && r@[1].title@ == "Discovery"@,
        r@[2].id@ == "discovery_outside_tab"@ && r@[2].title@ == "Discovery (outside network)"@,
        r@[3].id@ == "discovery_inside_tab"@ && r@[3].title@ == "Discovery (inside network)"@,
        r@[4].id@ == "topology_overview_tab"@ && r@[4].title@ == "Network Topology"@,
        r@[5].id@ == "cnc_overview_tab"@ && r@[5].title@ == "CnC Server"@,
        r@[6].id@ == "notes_tab"@ && r@[6].title@ == "Notes"@,
        r@[7].id@ == "status_tab"@ && r@[7].title@ == "Status Info"@,
        r@[8].id@ == "performed_steps_tab"@ && r@[8].title@ == "Performed steps"@,
        r@[9].id@ == "hints_tab"@ && r@[9].title@ == "Hints"@,
        r@[10].id@ == "terminal_tab"@ && r@[10].title@ == "Terminal (1)"@,
{
    let mut v: Vec<WorkspaceTab> = Vec::new();
    v.push(WorkspaceTab::new("meta_tab", "General"));
    v.push(WorkspaceTab::new("discovery_shared_tab", "Discovery"));
    v.push(WorkspaceTab::new("discovery_outside_tab", "Discovery (outside network)"));
    v.push(WorkspaceTab::new("discovery_inside_tab", "Discovery (inside network)"));
    v.push(WorkspaceTab::new("topology_overview_tab", "Network Topology"));
    v.push(WorkspaceTab::new("cnc_overview_tab", "CnC Server"));
    v.push(WorkspaceTab::new("notes_tab", "Notes"));
    v.push(WorkspaceTab::new("status_tab", "Status Info"));
    v.push(WorkspaceTab::new("performed_steps_tab", "Performed steps"));
    v.push(WorkspaceTab::new("hints_tab", "Hints"));
    v.push(WorkspaceTab::new("terminal_tab", "Terminal (1)"));
    v
}

/// Closes the first open tab with the given id, if one is there, and says
/// whether one was removed.
pub fn remove_open_tab(tabs: &mut Vec<WorkspaceTab>, id: &str) -> (r: bool)
    ensures
        !r ==> final(tabs)@ == old(tabs)@ && forall|k: int|
            0 <= k < old(tabs)@.len() ==> (#[trigger] old(tabs)@[k]).id@ != id@,
        r ==> exists|p: int|
            0 <= p < old(tabs)@.len() && (#[trigger] old(tabs)@[p]).id@ == id@ && (forall|k: int|
                0 <= k < p ==> (#[trigger] old(tabs)@[k]).id@ != id@) && final(tabs)@ == old(
                tabs,
            )@.remove(p),
{
    let id_string = String::from_str(id);
    let mut i: usize = 0;
    while i < tabs.len()
        invariant
            *tabs == *old(tabs),
            id_string@ == id@,
            i <= tabs@.len(),
            forall|k: int| 0 <= k < i ==> (#[trigger] tabs@[k]).id@ != id@,
        decreases tabs@.len() - i,
    {
        if tabs[i].id == id_string {
            tabs.remove(i);
            return true;
        }
        i = i + 1;
    }
    false
}

/// The window for adding a device by hand: its form fields and validation
/// flags.
pub struct AddNewDeviceWindowState {
    pub open: bool,
    pub ip: String,
    pub ip_validation_err: bool,
    pub hostname: String,
    pub notes: String,
    pub ip_already_exists_err: bool,
    pub ping_after_creation: bool,
}

impl Default for AddNewDeviceWindowState {
    /// A closed window with empty fields.
    fn default() -> (r: Self)
        ensures
            r.open == false,
            r.ip@ == Seq::<char>::empty(),
            r.ip_validation_err == false,
            r.hostname@ == Seq::<char>::empty(),
            r.notes@ == Seq::<char>::empty(),
            r.ip_already_exists_err == false,
            r.ping_after_creation == false,
    {
        AddNewDeviceWindowState {
            open: false,
            ip: String::new(),
            ip_validation_err: false,
            hostname: String::new(),
            notes: String::new(),
            ip_already_exists_err: false,
            ping_after_creation: false,
        }
    }
}

/// How the range-scan window takes its addresses.
#[derive(Clone, Copy, Debug, PartialEq, Eq, Structural)]
pub enum IpInputType {
    Range,
    CIDRNotation,
    Manual,
}

/// The window that configures a range scan: input mode, the three input
/// forms with their validation flags, and the probe settings.
pub struct ScanIpRangeWindowState {
    pub open: bool,
    pub input_type: IpInputType,
    pub range_ip_from: String,
    pub range_ip_from_validation_err: bool,
    pub range_ip_to: String,
    pub range_ip_to_validation_err: bool,
    pub cidr_notation: String,
    pub cidr_notation_validation_err: bool,
    pub manual_ips: Vec<String>,
    pub manual_ips_validation_err: Vec<String>,
    pub settings_ping_timeout_ms: String,
    pub settings_ping_checkup_ms: String,
    pub settings_exlude_localhost: bool,
    pub settings_remove_connectivity_status_when_unreachable: bool,
    pub settings_reset_connectivity_status: bool,
}

impl Default for ScanIpRangeWindowState {
    /// A closed window over the usual home-network defaults.
    fn default() -> (r: Self)
        ensures
            r.open == false,
            r.input_type == IpInputType::Range,
            r.range_ip_from@ == "192.168.0.0"@,
            r.range_ip_from_validation_err == false,
            r.range_ip_to@ == "192.168.0.255"@,
            r.range_ip_to_validation_err == false,
            r.cidr_notation@ == "192.168.0.0/24"@,
            r.cidr_notation_validation_err == false,
            r.manual_ips@.len() == 1 && r.manual_ips@[0]@ == "192.168.0.1"@,
            r.manual_ips_validation_err@.len() == 0,
            r.settings_ping_timeout_ms@ == "500"@,
            r.settings_ping_checkup_ms@ == "10"@,
            r.settings_exlude_localhost == true,
            r.settings_remove_connectivity_status_when_unreachable == true,
            r.settings_reset_connectivity_status == false,
    {
        let mut manual_ips: Vec<String> = Vec::new();
        manual_ips.push(String::from_str("192.168.0.1"));
        ScanIpRangeWindowState {
            open: false,
            input_type: IpInputType::Range,
            range_ip_from: String::from_str("192.168.0.0"),
            range_ip_from_validation_err: false,
            range_ip_to: String::from_str("192.168.0.255"),
            range_ip_to_validation_err: false,
            cidr_notation: String::from_str("192.168.0.0/24"),
            cidr_notation_validation_err: false,
            manual_ips,
            manual_ips_validation_err: Vec::new(),
            settings_ping_timeout_ms: String::from_str("500"),
            settings_ping_checkup_ms: String::from_str("10"),
            settings_exlude_localhost: true,
            settings_remove_connectivity_status_when_unreachable: true,
            settings_reset_connectivity_status: false,
        }
    }
}

/// Where the tool keeps its files, under the user's home directory.
pub fn program_root_dir(home: &str) -> (r: String)
    ensures
        r@ == home@ + "/.config/teef/"@,
{
    let mut s = String::from_str(home);
    s.append("/.config/teef/");
    s
}

/// Where the tool keeps its saved projects.
pub fn program_projects_dir(home: &str) -> (r: String)
    ensures
        r@ == home@ + "/.config/teef/"@ + "projects/"@,
{
    let mut s = program_root_dir(home);
    s.append("projects/");
    s
}

/// The message shown when the local machine's address could not be read.
pub open spec fn msg_no_local_info_text() -> Seq<char> {
    "Unable to get information required to create localhost. This is probably, because you're not connected to any network."@
}

/// The message shown when a local-machine node is already there.
pub open spec fn msg_localhost_exists_text() -> Seq<char> {
    "Unable to create new instance of this computer, since it already exists. Before creating a new one, please make sure to remove the old instance."@
}

/// The message shown when the local address already names another node.
pub open spec fn msg_localhost_ip_taken_text(ip: IpAddress) -> Seq<char> {
    "Unable to create new instance of this computer, since your IP ("@ + ip_string(ip)
        + ") already exists as a node. Before creating a new one, please make sure to remove the old instance."@
}

/// Adds the node standing for this machine, handed in by the caller who
/// looked up its address and hostname — or says why it cannot be added:
/// no address could be read, a local node already exists, or the address
/// already names a node.  The message, when there is one, is what the
/// info window shows.
pub fn add_localhost_pc(topo: &mut NetworkTopology, candidate: Option<NetworkTopologyNode>) -> (r:
    Option<String>)
    requires
        old(topo).wf(),
        old(topo).hosts@.len() < 0xFFFF_FFFF,
        match candidate {
            Some(n) => n.is_localhost,
            None => true,
        },
    ensures
        final(topo).wf(),
        match candidate {
            None => *final(topo) == *old(topo) && (match r {
                Some(m) => m@ == msg_no_local_info_text(),
                None => false,
            }),
            Some(n) => {
                if old(topo).has_localhost() {
                    *final(topo) == *old(topo) && (match r {
                        Some(m) => m@ == msg_localhost_exists_text(),
                        None => false,
                    })
                } else if old(topo).has_ip(n.ip) {
                    *final(topo) == *old(topo) && (match r {
                        Some(m) => m@ == msg_localhost_ip_taken_text(n.ip),
                        None => false,
                    })
                } else {
                    r is None && final(topo).has_ip(n.ip) && final(topo).has_localhost()
                        && final(topo).host_views() == old(topo).host_views().push(
                        (final(topo).hosts@.last().id, n@),
                    )
                }
            },
        },
{
    match candidate {
        None => {
            Some(
                String::from_str(
                    "Unable to get information required to create localhost. This is probably, because you're not connected to any network.",
                ),
            )
        },
        Some(n) => {
            match topo.get_localhosts_node() {
                Some(_) => {
                    Some(
                        String::from_str(
                            "Unable to create new instance of this computer, since it already exists. Before creating a new one, please make sure to remove the old instance.",
                        ),
                    )
                },
                None => {
                    let candidate_ip = n.ip;
                    let ghost n_ip = n.ip;
                    let added = topo.add_node(n);
                    match added {
                        Some(_id) => {
                            proof {
                                let last = topo.hosts@.len() - 1;
                                assert(topo.hosts@[last].node.ip == n_ip);
                                assert(topo.hosts@[last].node.is_localhost);
                            }
                            None
                        },
                        None => {
                            let mut s = String::from_str(
                                "Unable to create new instance of this computer, since your IP (",
                            );
                            s.append(crate::textfmt::ip_to_string(candidate_ip).as_str());
                            s.append(
                                ") already exists as a node. Before creating a new one, please make sure to remove the old instance.",
                            );
                            proof {
                                assert(s@ =~= msg_localhost_ip_taken_text(n_ip));
                            }
                            Some(s)
                        },
                    }
                },
            }
        },
    }
}

} // verus!
