//! The TCP port scanner.
//!
//! One scan job walks a port list in input order.  For each port the
//! connect attempt, the banner read and the fuzz exchange run outside the
//! library; what they observed comes back as a [`PortProbeOutcome`] and
//! everything decided about it — what to record, how to decode it, which
//! service to guess — is verified here.  When every port was tried, the
//! collected records are appended to the target node under one critical
//! section; a node deleted mid-scan turns that write into a no-op with a
//! single warning.

use vstd::prelude::*;
use vstd::string::StringExecFns;
use crate::net::IpAddress;
use crate::status::StatusMessage;
use crate::textfmt::{dec_list_seq, dec_seq, ports_to_dec_list, u64_to_dec_string};
use crate::topology::{
    port_views, BannerGrabResult, FuzzingResult, FuzzingResults, NetworkTopology, PortInfo, Port,
};

verus! {

/// How one port scan behaves: timeouts, and whether to banner-grab and
/// fuzz an open port.
pub struct ScanIpPortsConfig {
    pub connection_timeout_ms: u64,
    pub should_banner_grab: bool,
    pub should_fuzz: bool,
    pub read_write_timeout_ms: u64,
}

/// The service table: the well-known service behind a port, with a line
/// about it, for the ports the tool recognises.
pub open spec fn service_entry(port: u16) -> Option<(Seq<char>, Seq<char>)> {
    if port == 20 {
        Some(("ftp-data"@, "FTP data transfer"@))
    } else if port == 21 {
        Some(("ftp"@, "FTP control connection"@))
    } else if port == 22 {
        Some(("ssh"@, "Secure Shell remote login"@))
    } else if port == 23 {
        Some(("telnet"@, "Unencrypted remote login"@))
    } else if port == 25 {
        Some(("smtp"@, "Mail transfer"@))
    } else if port == 53 {
        Some(("dns"@, "Domain name service"@))
    } else if port == 80 {
        Some(("http"@, "Web server"@))
    } else if port == 110 {
        Some(("pop3"@, "Mail retrieval"@))
    } else if port == 123 {
        Some(("ntp"@, "Network time"@))
    } else if port == 143 {
        Some(("imap"@, "Mail access"@))
    } else if port == 443 {
        Some(("https"@, "Web server over TLS"@))
    } else if port == 445 {
        Some(("smb"@, "Windows file sharing"@))
    } else if port == 993 {
        Some(("imaps"@, "Mail access over TLS"@))
    } else if port == 995 {
        Some(("pop3s"@, "Mail retrieval over TLS"@))
    } else if port == 3306 {
        Some(("mysql"@, "MySQL database"@))
    } else if port == 3389 {
        Some(("rdp"@, "Remote desktop"@))
    } else if port == 5432 {
        Some(("postgresql"@, "PostgreSQL database"@))
    } else if port == 8080 {
        Some(("http-alt"@, "Alternate web server"@))
    } else {
        None
    }
}

/// The service-name guess for a port: the table entry when the port is
/// known, else "unknown" with no extra line.  Banner and fuzz content are
/// not consulted yet.
pub fn recognize_port_service(
    port: &Port,
    banner: &BannerGrabResult,
    fuzzing_results: &FuzzingResults,
) -> (r: (String, Option<String>))
    ensures
        match service_entry(*port) {
            Some(entry) => r.0@ == entry.0 && (match r.1 {
                Some(u) => u@ == entry.1,
                None => false,
            }),
            None => r.0@ == "unknown"@ && r.1 is None,
        },
{
    let p: u16 = *port;
    if p == 20 {
        (String::from_str("ftp-data"), Some(String::from_str("FTP data transfer")))
    } else if p == 21 {
        (String::from_str("ftp"), Some(String::from_str("FTP control connection")))
    } else if p == 22 {
        (String::from_str("ssh"), Some(String::from_str("Secure Shell remote login")))
    } else if p == 23 {
        (String::from_str("telnet"), Some(String::from_str("Unencrypted remote login")))
    } else if p == 25 {
        (String::from_str("smtp"), Some(String::from_str("Mail transfer")))
    } else if p == 53 {
        (String::from_str("dns"), Some(String::from_str("Domain name service")))
    } else if p == 80 {
        (String::from_str("http"), Some(String::from_str("Web server")))
    } else if p == 110 {
        (String::from_str("pop3"), Some(String::from_str("Mail retrieval")))
    } else if p == 123 {
        (String::from_str("ntp"), Some(String::from_str("Network time")))
    } else if p == 143 {
        (String::from_str("imap"), Some(String::from_str("Mail access")))
    } else if p == 443 {
        (String::from_str("https"), Some(String::from_str("Web server over TLS")))
    } else if p == 445 {
        (String::from_str("smb"), Some(String::from_str("Windows file sharing")))
    } else if p == 993 {
        (String::from_str("imaps"), Some(String::from_str("Mail access over TLS")))
    } else if p == 995 {
        (String::from_str("pop3s"), Some(String::from_str("Mail retrieval over TLS")))
    } else if p == 3306 {
        (String::from_str("mysql"), Some(String::from_str("MySQL database")))
    } else if p == 3389 {
        (String::from_str("rdp"), Some(String::from_str("Remote desktop")))
    } else if p == 5432 {
        (String::from_str("postgresql"), Some(String::from_str("PostgreSQL database")))
    } else if p == 8080 {
        (String::from_str("http-alt"), Some(String::from_str("Alternate web server")))
    } else {
        (String::from_str("unknown"), None)
    }
}

/// The ports probed first by default.
pub fn most_common_ports() -> (r: Vec<Port>)
    ensures
        r@ == seq![20u16, 21u16, 22u16],
{
    let mut v: Vec<Port> = Vec::new();
    v.push(20);
    v.push(21);
    v.push(22);
    proof {
        assert(v@ =~= seq![20u16, 21u16, 22u16]);
    }
    v
}

/// Every port of the inclusive range `from ..= to`, in order; an empty
/// range gives an empty list.
pub fn expand_port_range(from: Port, to: Port) -> (r: Vec<Port>)
    ensures
        from > to ==> r@.len() == 0,
        from <= to ==> r@.len() == to - from + 1,
        forall|i: int| 0 <= i < r@.len() ==> r@[i] == from + i,
{
    let mut out: Vec<Port> = Vec::new();
    if from > to {
        return out;
    }
    let mut cur: u32 = from as u32;
    while cur <= to as u32
        invariant
            from <= to,
            from <= cur <= to as u32 + 1,
            out@.len() == cur - from,
            forall|i: int| 0 <= i < out@.len() ==> out@[i] == from + i,
        decreases to as u32 + 1 - cur,
    {
        out.push(cur as u16);
        cur = cur + 1;
    }
    out
}

/// The bytes of fuzz probe `i`: "info\n", "help\n" and "version\n".
pub open spec fn fuzz_command(i: int) -> Seq<u8> {
    if i == 0 {
        seq![105u8, 110u8, 102u8, 111u8, 10u8]
    } else if i == 1 {
        seq![104u8, 101u8, 108u8, 112u8, 10u8]
    } else {
        seq![118u8, 101u8, 114u8, 115u8, 105u8, 111u8, 110u8, 10u8]
    }
}

/// The fixed commands sent when fuzzing an open port, in the order they
/// are sent.
pub fn port_fuzzing_commands() -> (r: Vec<Vec<u8>>)
    ensures
        r@.len() == 3,
        forall|i: int| 0 <= i < 3 ==> (#[trigger] r@[i])@ == fuzz_command(i),
{
    let mut v: Vec<Vec<u8>> = Vec::new();
    let mut c0: Vec<u8> = Vec::new();
    c0.push(105);
    c0.push(110);
    c0.push(102);
    c0.push(111);
    c0.push(10);
    proof {
        assert(c0@ =~= fuzz_command(0));
    }
    let mut c1: Vec<u8> = Vec::new();
    c1.push(104);
    c1.push(101);
    c1.push(108);
    c1.push(112);
    c1.push(10);
    proof {
        assert(c1@ =~= fuzz_command(1));
    }
    let mut c2: Vec<u8> = Vec::new();
    c2.push(118);
    c2.push(101);
    c2.push(114);
    c2.push(115);
    c2.push(105);
    c2.push(111);
    c2.push(110);
    c2.push(10);
    proof {
        assert(c2@ =~= fuzz_command(2));
    }
    v.push(c0);
    v.push(c1);
    v.push(c2);
    v
}

/// Each byte read from a socket, taken as the character with that code.
pub open spec fn bytes_as_chars(s: Seq<u8>) -> Seq<char> {
    s.map_values(|b: u8| b as char)
}

/// Relies on `String::push`: appends one character.
pub assume_specification[ String::push ](s: &mut String, c: char)
    ensures
        final(s)@ == old(s)@.push(c),
;

/// Decodes a raw socket buffer as text, one character per byte.
pub fn socket_buffer_to_string(buffer: &[u8]) -> (r: String)
    ensures
        r@ == bytes_as_chars(buffer@),
{
    let mut s = String::new();
    let mut i: usize = 0;
    while i < buffer.len()
        invariant
            i <= buffer@.len(),
            s@ == bytes_as_chars(buffer@.take(i as int)),
        decreases buffer@.len() - i,
    {
        let b: u8 = buffer[i];
        s.push(b as char);
        proof {
            assert(buffer@.take(i as int + 1) =~= buffer@.take(i as int).push(buffer@[i as int]));
            assert(s@ =~= bytes_as_chars(buffer@.take(i as int + 1)));
        }
        i = i + 1;
    }
    proof {
        assert(buffer@.take(buffer@.len() as int) =~= buffer@);
    }
    s
}

/// The state of one best-effort socket read: what arrived so far, and
/// whether the last poll already came up empty.
pub struct SocketReadState {
    pub data: Vec<u8>,
    pub potentially_finished: bool,
}

/// What one read attempt observed.
pub enum SocketReadEvent {
    /// Bytes arrived; an empty buffer means the stream ended.
    Bytes(Vec<u8>),
    /// The read would block: nothing there right now.
    WouldBlock,
    /// The read failed for another reason; the text tells why.
    Failed(String),
}

/// What the read loop does next.
pub enum SocketReadStep {
    /// Read again at once.
    Continue(SocketReadState),
    /// Sleep one read-timeout, then read once more before giving up.
    SleepThenContinue(SocketReadState),
    /// The read is over; here is everything that arrived.
    Done(Vec<u8>),
    /// The read failed; the text tells why.
    Fail(String),
}

/// One decision of the best-effort read: bytes are accumulated and reset
/// the idle flag; an ended stream hands the data back; a would-block poll
/// gives the peer one more read-timeout, and a second empty poll in a row
/// ends the read; any other error fails it.
pub fn read_everything_step(state: SocketReadState, event: SocketReadEvent) -> (r: SocketReadStep)
    ensures
        match event {
            SocketReadEvent::Bytes(b) => if b@.len() > 0 {
                r matches SocketReadStep::Continue(st) && st.data@ == state.data@ + b@
                    && st.potentially_finished == false
            } else {
                r matches SocketReadStep::Done(d) && d@ == state.data@
            },
            SocketReadEvent::WouldBlock => if state.potentially_finished {
                r matches SocketReadStep::Done(d) && d@ == state.data@
            } else {
                r matches SocketReadStep::SleepThenContinue(st) && st.data@ == state.data@
                    && st.potentially_finished == true
            },
            SocketReadEvent::Failed(e) => r matches SocketReadStep::Fail(e2) && e2 == e,
        },
{
    let mut state = state;
    match event {
        SocketReadEvent::Bytes(b) => {
            if b.len() > 0 {
                let mut extra = b;
                state.data.append(&mut extra);
                state.potentially_finished = false;
                SocketReadStep::Continue(state)
            } else {
                SocketReadStep::Done(state.data)
            }
        },
        SocketReadEvent::WouldBlock => {
            if state.potentially_finished {
                SocketReadStep::Done(state.data)
            } else {
                state.potentially_finished = true;
                SocketReadStep::SleepThenContinue(state)
            }
        },
        SocketReadEvent::Failed(e) => SocketReadStep::Fail(e),
    }
}

/// What the unverified connection handling observed at one port.
pub enum PortProbeOutcome {
    /// The TCP connect did not succeed within its timeout.
    ConnectFailed,
    /// The connect succeeded; the raw banner bytes (when a grab was asked
    /// for and succeeded) and the raw response to each fuzz command sent.
    Connected { banner_raw: Option<Vec<u8>>, fuzz_responses: Vec<(Vec<u8>, Vec<u8>)> },
}

/// Spec-level pairs of (command, response) bytes.
pub open spec fn pair_bytes_views(s: Seq<(Vec<u8>, Vec<u8>)>) -> Seq<(Seq<u8>, Seq<u8>)> {
    s.map_values(|p: (Vec<u8>, Vec<u8>)| (p.0@, p.1@))
}

/// The fuzz records kept from a run of command/response pairs: one record
/// per pair whose response was non-empty, in order, each decoding command
/// and response as text beside the raw response bytes.
pub open spec fn fuzz_records_of(pairs: Seq<(Seq<u8>, Seq<u8>)>) -> Seq<
    crate::topology::FuzzingResultView,
>
    decreases pairs.len(),
{
    if pairs.len() == 0 {
        Seq::empty()
    } else {
        let rest = fuzz_records_of(pairs.drop_last());
        let last = pairs.last();
        if last.1.len() > 0 {
            rest.push(
                crate::topology::FuzzingResultView {
                    command: bytes_as_chars(last.0),
                    result: bytes_as_chars(last.1),
                    result_raw: last.1,
                },
            )
        } else {
            rest
        }
    }
}

fn copy_byte_vec(v: &Vec<u8>) -> (r: Vec<u8>)
    ensures
        r@ == v@,
{
    let mut out: Vec<u8> = Vec::new();
    let mut k: usize = 0;
    while k < v.len()
        invariant
            k <= v@.len(),
            out@ == v@.take(k as int),
        decreases v@.len() - k,
    {
        out.push(v[k]);
        proof {
            assert(v@.take(k as int + 1) =~= v@.take(k as int).push(v@[k as int]));
        }
        k = k + 1;
    }
    proof {
        assert(v@.take(v@.len() as int) =~= v@);
    }
    out
}

fn build_fuzz_records(pairs: &Vec<(Vec<u8>, Vec<u8>)>) -> (r: Vec<FuzzingResult>)
    ensures
        crate::topology::fuzz_views(r@) == fuzz_records_of(pair_bytes_views(pairs@)),
{
    let mut out: Vec<FuzzingResult> = Vec::new();
    let mut i: usize = 0;
    proof {
        assert(pair_bytes_views(pairs@.take(0)) =~= Seq::<(Seq<u8>, Seq<u8>)>::empty());
        assert(crate::topology::fuzz_views(out@) =~= fuzz_records_of(
            pair_bytes_views(pairs@.take(0)),
        ));
    }
    while i < pairs.len()
        invariant
            i <= pairs@.len(),
            crate::topology::fuzz_views(out@) == fuzz_records_of(
                pair_bytes_views(pairs@.take(i as int)),
            ),
        decreases pairs@.len() - i,
    {
        let ghost pre = pair_bytes_views(pairs@.take(i as int));
        proof {
            assert(pairs@.take(i as int + 1).drop_last() =~= pairs@.take(i as int));
            assert(pair_bytes_views(pairs@.take(i as int + 1)).drop_last() =~= pre);
            assert(pair_bytes_views(pairs@.take(i as int + 1)).last() == (
                pairs@[i as int].0@,
                pairs@[i as int].1@,
            ));
        }
        let has_resp = pairs[i].1.len() > 0;
        if has_resp {
            let command = socket_buffer_to_string(pairs[i].0.as_slice());
            let result = socket_buffer_to_string(pairs[i].1.as_slice());
            let result_raw = copy_byte_vec(&pairs[i].1);
            let rec = FuzzingResult { command, result, result_raw };
            proof {
                crate::topology::lemma_fuzz_views_push(out@, rec);
            }
            out.push(rec);
            proof {
                assert(crate::topology::fuzz_views(out@) =~= fuzz_records_of(
                    pair_bytes_views(pairs@.take(i as int + 1)),
                ));
            }
        }
        i = i + 1;
    }
    proof {
        assert(pairs@.take(pairs@.len() as int) =~= pairs@);
    }
    out
}

/// The log line for a port whose connect failed.
pub open spec fn msg_port_unreachable_text(p: u16) -> Seq<char> {
    "Port "@ + dec_seq(p as int) + " is unreachable."@
}

/// The log line for an open port, naming the service guess.
pub open spec fn msg_port_reachable_text(p: u16, name: Seq<char>) -> Seq<char> {
    "Port "@ + dec_seq(p as int) + " is reachable, possible service guess: "@ + name + "."@
}

/// The log line showing what a banner grab read.
pub open spec fn msg_banner_text(p: u16, text: Seq<char>) -> Seq<char> {
    "Port "@ + dec_seq(p as int) + " - banner grab result: "@ + text
}

/// The log line counting the fuzz probes that drew a response.
pub open spec fn msg_fuzz_text(p: u16, n: int) -> Seq<char> {
    "Port "@ + dec_seq(p as int) + " - fuzzing results: "@ + dec_seq(n)
}

/// The log line that closes the port walk, listing the open ports.
pub open spec fn msg_scan_finished_text(n: int, nums: Seq<u16>) -> Seq<char> {
    "Finished scanning. Found "@ + dec_seq(n) + " reachable ports ("@ + dec_list_seq(nums)
        + "). Proceeding to update the node..."@
}

/// The warning when the scanned node was deleted before the write-back.
pub open spec fn msg_update_failed_text() -> Seq<char> {
    "Unable to update the node after port scan. The results got destroyed. Sorry :("@
}

/// The log line after a successful write-back.
pub open spec fn msg_update_ok_text() -> Seq<char> {
    "Successfully updated the data on the node."@
}

fn build_msg_port_unreachable(p: u16) -> (r: String)
    ensures
        r@ == msg_port_unreachable_text(p),
{
    let mut s = String::from_str("Port ");
    s.append(u64_to_dec_string(p as u64).as_str());
    s.append(" is unreachable.");
    proof {
        assert(s@ =~= msg_port_unreachable_text(p));
    }
    s
}

fn build_msg_port_reachable(p: u16, name: &str) -> (r: String)
    ensures
        r@ == msg_port_reachable_text(p, name@),
{
    let mut s = String::from_str("Port ");
    s.append(u64_to_dec_string(p as u64).as_str());
    s.append(" is reachable, possible service guess: ");
    s.append(name);
    s.append(".");
    proof {
        assert(s@ =~= msg_port_reachable_text(p, name@));
    }
    s
}

fn build_msg_banner(p: u16, text: &str) -> (r: String)
    ensures
        r@ == msg_banner_text(p, text@),
{
    let mut s = String::from_str("Port ");
    s.append(u64_to_dec_string(p as u64).as_str());
    s.append(" - banner grab result: ");
    s.append(text);
    proof {
        assert(s@ =~= msg_banner_text(p, text@));
    }
    s
}

fn build_msg_fuzz(p: u16, n: u64) -> (r: String)
    ensures
        r@ == msg_fuzz_text(p, n as int),
{
    let mut s = String::from_str("Port ");
    s.append(u64_to_dec_string(p as u64).as_str());
    s.append(" - fuzzing results: ");
    s.append(u64_to_dec_string(n).as_str());
    proof {
        assert(s@ =~= msg_fuzz_text(p, n as int));
    }
    s
}

fn build_msg_scan_finished(n: u64, nums: &Vec<u16>) -> (r: String)
    ensures
        r@ == msg_scan_finished_text(n as int, nums@),
{
    let mut s = String::from_str("Finished scanning. Found ");
    s.append(u64_to_dec_string(n).as_str());
    s.append(" reachable ports (");
    s.append(ports_to_dec_list(nums).as_str());
    s.append("). Proceeding to update the node...");
    proof {
        assert(s@ =~= msg_scan_finished_text(n as int, nums@));
    }
    s
}

/// The port numbers of a list of port records, in order.
pub open spec fn numbers_of(s: Seq<crate::topology::PortInfoView>) -> Seq<u16> {
    s.map_values(|p: crate::topology::PortInfoView| p.number)
}

/// The ports of the first `k` probes whose connect succeeded, in input
/// order.
pub open spec fn connected_prefix(ports: Seq<u16>, outcomes: Seq<bool>, k: int) -> Seq<u16>
    decreases k,
{
    if k <= 0 {
        Seq::empty()
    } else if outcomes[k - 1] {
        connected_prefix(ports, outcomes, k - 1).push(ports[k - 1])
    } else {
        connected_prefix(ports, outcomes, k - 1)
    }
}

proof fn lemma_connected_prefix_agree(ports: Seq<u16>, o1: Seq<bool>, o2: Seq<bool>, k: int)
    requires
        forall|i: int| 0 <= i < k ==> o1[i] == o2[i],
    ensures
        connected_prefix(ports, o1, k) == connected_prefix(ports, o2, k),
    decreases k,
{
    if k > 0 {
        lemma_connected_prefix_agree(ports, o1, o2, k - 1);
    }
}

proof fn lemma_numbers_push(s: Seq<crate::topology::PortInfoView>, x: crate::topology::PortInfoView)
    ensures
        numbers_of(s.push(x)) == numbers_of(s).push(x.number),
{
    let l = numbers_of(s.push(x));
    let r = numbers_of(s).push(x.number);
    assert(l.len() == r.len());
    assert forall|k: int| 0 <= k < l.len() implies #[trigger] l[k] == r[k] by {
        if k < s.len() {
            assert(s.push(x)[k] == s[k]);
            assert(r[k] == numbers_of(s)[k]);
        } else {
            assert(s.push(x)[k] == x);
        }
    }
    assert(l =~= r);
}

fn collect_port_numbers(v: &Vec<PortInfo>) -> (r: Vec<u16>)
    ensures
        r@ == numbers_of(port_views(v@)),
{
    let mut out: Vec<u16> = Vec::new();
    let mut i: usize = 0;
    while i < v.len()
        invariant
            i <= v@.len(),
            out@.len() == i as int,
            forall|j: int| 0 <= j < i ==> out@[j] == v@[j].number,
        decreases v@.len() - i,
    {
        out.push(v[i].number);
        i = i + 1;
    }
    proof {
        assert(out@ =~= numbers_of(port_views(v@)));
    }
    out
}

/// One port-scan run: the target, the ports in input order, the probing
/// position and the records collected so far.  The ghost `outcomes` field
/// remembers which probes connected, so the final write can be pinned to
/// exactly those ports.
pub struct PortScanJob {
    pub ip: IpAddress,
    pub ports: Vec<Port>,
    pub pos: usize,
    pub node_index: u32,
    pub config: ScanIpPortsConfig,
    pub reachable_ports: Vec<PortInfo>,
    pub outcomes: Ghost<Seq<bool>>,
}

/// Opens a port scan of `ports` on the host at `ip`, writing back to
/// node `node_index` when done.  The connecting itself happens
/// outside; nothing is probed here.
pub fn scap_ip_ports(ip: IpAddress, ports: Vec<Port>, node_index: u32, config: ScanIpPortsConfig) -> (r:
    PortScanJob)
    ensures
        r.inv(),
        r.ip == ip,
        r.ports@ == ports@,
        r.pos == 0,
        r.node_index == node_index,
        r.config == config,
        r.reachable_ports@.len() == 0,
{
    let r = PortScanJob {
        ip,
        ports,
        pos: 0,
        node_index,
        config,
        reachable_ports: Vec::new(),
        outcomes: Ghost(Seq::empty()),
    };
    proof {
        assert(numbers_of(port_views(r.reachable_ports@)) =~= connected_prefix(
            r.ports@,
            r.outcomes@,
            0,
        ));
    }
    r
}

impl PortScanJob {
    /// What a scan job maintains: the records collected so far belong to
    /// exactly the ports whose connect succeeded, in input order.
    pub open spec fn inv(self) -> bool {
        &&& self.pos <= self.ports@.len()
        &&& self.outcomes@.len() == self.pos
        &&& numbers_of(port_views(self.reachable_ports@)) == connected_prefix(
            self.ports@,
            self.outcomes@,
            self.pos as int,
        )
    }

    /// The next port to try, in input order.
    pub fn next_port(&self) -> (r: Option<Port>)
        ensures
            self.pos < self.ports@.len() ==> r == Some(self.ports@[self.pos as int]),
            self.pos >= self.ports@.len() ==> r is None,
    {
        if self.pos < self.ports.len() {
            Some(self.ports[self.pos])
        } else {
            None
        }
    }

    /// Digests what the connection handling observed at the current port.
    /// A failed connect logs one line and records nothing.  An open port
    /// is recorded with the service guess of the static table; when a
    /// banner grab or fuzzing was asked for, the banner text is decoded
    /// and each fuzz command that drew a non-empty response is kept, and
    /// one extra line is logged for each of the two.
    pub fn on_port_result(&mut self, outcome: PortProbeOutcome) -> (msgs: Vec<StatusMessage>)
        requires
            old(self).inv(),
            old(self).pos < old(self).ports@.len(),
        ensures
            final(self).inv(),
            final(self).ip == old(self).ip,
            final(self).ports@ == old(self).ports@,
            final(self).node_index == old(self).node_index,
            final(self).config == old(self).config,
            final(self).pos == old(self).pos + 1,
            match outcome {
                PortProbeOutcome::ConnectFailed => {
                    &&& final(self).reachable_ports@ == old(self).reachable_ports@
                    &&& final(self).outcomes@ == old(self).outcomes@.push(false)
                    &&& msgs@.len() == 1
                    &&& msgs@[0].is_info()
                    &&& msgs@[0].text() == msg_port_unreachable_text(
                        old(self).ports@[old(self).pos as int],
                    )
                },
                PortProbeOutcome::Connected { banner_raw, fuzz_responses } => {
                    let p = old(self).ports@[old(self).pos as int];
                    let cfg = old(self).config;
                    let banner_view = if cfg.should_banner_grab && banner_raw is Some {
                        bytes_as_chars(banner_raw->0@)
                    } else {
                        Seq::<char>::empty()
                    };
                    let service_name = match service_entry(p) {
                        Some(entry) => entry.0,
                        None => "unknown"@,
                    };
                    &&& final(self).outcomes@ == old(self).outcomes@.push(true)
                    &&& port_views(final(self).reachable_ports@) == port_views(
                        old(self).reachable_ports@,
                    ).push(port_views(final(self).reachable_ports@).last())
                    &&& {
                        let pv = port_views(final(self).reachable_ports@).last();
                        &&& pv.number == p
                        &&& pv.banner == (if cfg.should_banner_grab || cfg.should_fuzz {
                            Some(banner_view)
                        } else {
                            None::<Seq<char>>
                        })
                        &&& pv.fuzzing_results == (if cfg.should_banner_grab || cfg.should_fuzz {
                            Some(
                                if cfg.should_fuzz {
                                    fuzz_records_of(pair_bytes_views(fuzz_responses@))
                                } else {
                                    Seq::<crate::topology::FuzzingResultView>::empty()
                                },
                            )
                        } else {
                            None::<Seq<crate::topology::FuzzingResultView>>
                        })
                        &&& pv.possible_service_name == service_name
                        &&& pv.possible_service_usefull_info == (match service_entry(p) {
                            Some(entry) => Some(entry.1),
                            None => None::<Seq<char>>,
                        })
                    }
                    &&& msgs@.len() == 1 + (if cfg.should_banner_grab {
                        1int
                    } else {
                        0int
                    }) + (if cfg.should_fuzz {
                        1int
                    } else {
                        0int
                    })
                    &&& msgs@[0].is_info()
                    &&& msgs@[0].text() == msg_port_reachable_text(p, service_name)
                    &&& (cfg.should_banner_grab ==> msgs@[1].is_info() && msgs@[1].text()
                        == msg_banner_text(p, banner_view))
                    &&& (cfg.should_fuzz ==> {
                        let fi = if cfg.should_banner_grab {
                            2int
                        } else {
                            1int
                        };
                        msgs@[fi].is_info() && msgs@[fi].text() == msg_fuzz_text(
                            p,
                            fuzz_records_of(pair_bytes_views(fuzz_responses@)).len() as int,
                        )
                    })
                },
            },
    {
        let total = self.ports.len();
        let p = self.ports[self.pos];
        self.pos = self.pos + 1;
        let mut msgs: Vec<StatusMessage> = Vec::new();
        match outcome {
            PortProbeOutcome::ConnectFailed => {
                proof {
                    self.outcomes@ = self.outcomes@.push(false);
                }
                msgs.push(StatusMessage::Info(build_msg_port_unreachable(p)));
                proof {
                    lemma_connected_prefix_agree(
                        self.ports@,
                        self.outcomes@,
                        old(self).outcomes@,
                        self.pos as int - 1,
                    );
                    assert(numbers_of(port_views(self.reachable_ports@)) =~= connected_prefix(
                        self.ports@,
                        self.outcomes@,
                        self.pos as int,
                    ));
                }
            },
            PortProbeOutcome::Connected { banner_raw, fuzz_responses } => {
                let grab = self.config.should_banner_grab;
                let fuzz = self.config.should_fuzz;
                let banner_text: String = if grab {
                    match &banner_raw {
                        Some(b) => socket_buffer_to_string(b.as_slice()),
                        None => String::new(),
                    }
                } else {
                    String::new()
                };
                let fuzz_records: Vec<FuzzingResult> = if fuzz {
                    build_fuzz_records(&fuzz_responses)
                } else {
                    Vec::new()
                };
                let banner: BannerGrabResult = if grab || fuzz {
                    Some(banner_text.clone())
                } else {
                    None
                };
                let fuzzing_results: FuzzingResults = if grab || fuzz {
                    Some(fuzz_records)
                } else {
                    None
                };
                let guess = recognize_port_service(&p, &banner, &fuzzing_results);
                let rec = PortInfo::new(p, banner, fuzzing_results, guess.0.clone(), guess.1);
                proof {
                    crate::topology::lemma_port_views_push(self.reachable_ports@, rec);
                    self.outcomes@ = self.outcomes@.push(true);
                }
                msgs.push(StatusMessage::Info(build_msg_port_reachable(p, guess.0.as_str())));
                if grab {
                    msgs.push(StatusMessage::Info(build_msg_banner(p, banner_text.as_str())));
                }
                if fuzz {
                    let n_kept = count_fuzz_records(&rec);
                    msgs.push(StatusMessage::Info(build_msg_fuzz(p, n_kept)));
                }
                self.reachable_ports.push(rec);
                proof {
                    lemma_connected_prefix_agree(
                        self.ports@,
                        self.outcomes@,
                        old(self).outcomes@,
                        self.pos as int - 1,
                    );
                    lemma_numbers_push(port_views(old(self).reachable_ports@), rec@);
                    assert(numbers_of(port_views(self.reachable_ports@)) =~= connected_prefix(
                        self.ports@,
                        self.outcomes@,
                        self.pos as int,
                    ));
                }
            },
        }
        msgs
    }

    /// Writes the collected records back to the target node under one
    /// critical section, appending them to its port list.  When the node
    /// was deleted mid-scan the write is skipped and exactly one warning
    /// is emitted — never a crash.  Either way the closing line lists the
    /// open ports found.
    pub fn finalize(&self, topo: &mut NetworkTopology) -> (msgs: Vec<StatusMessage>)
        requires
            self.inv(),
            self.pos == self.ports@.len(),
            old(topo).wf(),
        ensures
            final(topo).wf(),
            final(topo).node_ids() == old(topo).node_ids(),
            final(topo).edges() == old(topo).edges(),
            msgs@.len() == 2,
            msgs@[0].is_info(),
            msgs@[0].text() == msg_scan_finished_text(
                self.reachable_ports@.len() as int,
                numbers_of(port_views(self.reachable_ports@)),
            ),
            !old(topo).has_id(self.node_index) ==> {
                &&& *final(topo) == *old(topo)
                &&& msgs@[1].is_warn()
                &&& msgs@[1].text() == msg_update_failed_text()
            },
            old(topo).has_id(self.node_index) ==> {
                &&& msgs@[1].is_info()
                &&& msgs@[1].text() == msg_update_ok_text()
                &&& exists|pos: int|
                    0 <= pos < old(topo).hosts@.len() && (#[trigger] old(topo).hosts@[pos]).id
                        == self.node_index && final(topo).hosts@ == old(topo).hosts@.update(
                        pos,
                        final(topo).hosts@[pos],
                    ) && final(topo).hosts@[pos].node.ip == old(topo).hosts@[pos].node.ip && final(topo).hosts@[pos].node.hostname == old(topo).hosts@[pos].node.hostname && port_views(
                        final(topo).hosts@[pos].node.opened_ports@,
                    ) == port_views(old(topo).hosts@[pos].node.opened_ports@) + port_views(
                        self.reachable_ports@,
                    )
            },
    {
        let mut msgs: Vec<StatusMessage> = Vec::new();
        let nums = collect_port_numbers(&self.reachable_ports);
        msgs.push(
            StatusMessage::Info(
                build_msg_scan_finished(self.reachable_ports.len() as u64, &nums),
            ),
        );
        let cloned = clone_port_records(&self.reachable_ports);
        let updated = topo.append_ports(self.node_index, cloned);
        if updated {
            msgs.push(StatusMessage::Info(String::from_str("Successfully updated the data on the node.")));
        } else {
            msgs.push(
                StatusMessage::Warn(
                    String::from_str(
                        "Unable to update the node after port scan. The results got destroyed. Sorry :(",
                    ),
                ),
            );
        }
        msgs
    }
}

fn count_fuzz_records(rec: &PortInfo) -> (r: u64)
    ensures
        match rec.fuzzing_results {
            Some(f) => r == crate::topology::fuzz_views(f@).len(),
            None => r == 0,
        },
{
    match &rec.fuzzing_results {
        Some(f) => {
            let n = f.len();
            proof {
                assert(crate::topology::fuzz_views(f@).len() == f@.len());
            }
            n as u64
        },
        None => 0,
    }
}

fn clone_port_records(v: &Vec<PortInfo>) -> (r: Vec<PortInfo>)
    ensures
        port_views(r@) == port_views(v@),
{
    let mut out: Vec<PortInfo> = Vec::new();
    let mut i: usize = 0;
    while i < v.len()
        invariant
            i <= v@.len(),
            out@.len() == i as int,
            port_views(out@) == port_views(v@.take(i as int)),
        decreases v@.len() - i,
    {
        let c = (&v[i]).clone();
        proof {
            crate::topology::lemma_port_views_push(out@, c);
            crate::topology::lemma_port_views_push(v@.take(i as int), v@[i as int]);
            assert(v@.take(i as int + 1) =~= v@.take(i as int).push(v@[i as int]));
        }
        out.push(c);
        i = i + 1;
    }
    proof {
        assert(v@.take(v@.len() as int) =~= v@);
    }
    out
}

} // verus!
