//! ICMP echo request building and echo reply reading.
//!
//! One reachability probe sends a single echo request with a random
//! identifier and waits for the first reply, polling a shared status cell
//! until a reply or an error is recorded or the timeout passes.  The packet
//! bytes are framed here and proved against their layout; the checksum is
//! pnet's, named by a spec function; the raw transport and the listener
//! thread run outside the library.

use vstd::prelude::*;
use crate::net::IpAddress;

verus! {

/// Bytes in an echo request packet, header included.
pub const ICMP_SIZE: usize = 64;

/// ICMP type of an echo reply.
pub const ICMP_TYPE_ECHO_REPLY: u8 = 0;

/// ICMP type of a destination-unreachable answer.
pub const ICMP_TYPE_DEST_UNREACHABLE: u8 = 3;

/// ICMP type of an echo request.
pub const ICMP_TYPE_ECHO_REQUEST: u8 = 8;

/// The RFC 1071 internet checksum of `data` with 16-bit word number
/// `skipword` left out of the sum.
pub uninterp spec fn checksum_of(data: Seq<u8>, skipword: int) -> u16;

/// Relies on `pnet::packet::util::checksum`: the internet checksum of the
/// buffer, skipping the given 16-bit word; it depends on the bytes alone.
#[verifier::external_body]
fn icmp_checksum(data: &Vec<u8>, skipword: usize) -> (r: u16)
    ensures
        r == checksum_of(data@, skipword as int),
{
    pnet::packet::util::checksum(data.as_slice(), skipword)
}

/// Relies on `rand::random`: a fresh identifier for one echo request.
/// Nothing is promised of the value.
#[verifier::external_body]
fn random_u16() -> u16 {
    rand::random::<u16>()
}

/// The most significant byte of a 16-bit value.
pub open spec fn hi_byte(x: u16) -> u8 {
    (x / 256) as u8
}

/// The least significant byte of a 16-bit value.
pub open spec fn lo_byte(x: u16) -> u8 {
    (x % 256) as u8
}

/// The 64 bytes of an echo request: type 8, code 0, the given checksum,
/// the given identifier, sequence number 1 and a zero payload, all fields
/// big-endian.
pub open spec fn echo_request_bytes(identifier: u16, checksum: u16) -> Seq<u8> {
    Seq::new(
        ICMP_SIZE as nat,
        |i: int|
            if i == 0 {
                ICMP_TYPE_ECHO_REQUEST
            } else if i == 1 {
                0
            } else if i == 2 {
                hi_byte(checksum)
            } else if i == 3 {
                lo_byte(checksum)
            } else if i == 4 {
                hi_byte(identifier)
            } else if i == 5 {
                lo_byte(identifier)
            } else if i == 6 {
                0
            } else if i == 7 {
                1
            } else {
                0
            },
    )
}

/// An echo request with identifier `identifier`: the checksum field holds
/// the checksum of the same packet with that field zeroed, as the receiver
/// recomputes it.
pub open spec fn sealed_echo_request(identifier: u16) -> Seq<u8> {
    echo_request_bytes(identifier, checksum_of(echo_request_bytes(identifier, 0), 1))
}

/// Builds the echo request packet for one probe.
pub fn build_echo_request(identifier: u16) -> (r: Vec<u8>)
    ensures
        r@ == sealed_echo_request(identifier),
{
    let mut buf: Vec<u8> = Vec::new();
    let mut i: usize = 0;
    while i < ICMP_SIZE
        invariant
            i <= ICMP_SIZE,
            buf@.len() == i as int,
            forall|k: int| 0 <= k < i ==> buf@[k] == echo_request_bytes(identifier, 0)[k],
        decreases ICMP_SIZE - i,
    {
        let b: u8 = if i == 0 {
            ICMP_TYPE_ECHO_REQUEST
        } else if i == 4 {
            (identifier / 256) as u8
        } else if i == 5 {
            (identifier % 256) as u8
        } else if i == 7 {
            1
        } else {
            0
        };
        buf.push(b);
        i = i + 1;
    }
    proof {
        assert(buf@ =~= echo_request_bytes(identifier, 0));
    }
    let ck = icmp_checksum(&buf, 1);
    let hi: u8 = (ck / 256) as u8;
    let lo: u8 = (ck % 256) as u8;
    buf = set_byte(buf, 2, hi);
    buf = set_byte(buf, 3, lo);
    proof {
        assert(buf@ =~= sealed_echo_request(identifier));
    }
    buf
}

fn set_byte(v: Vec<u8>, i: usize, b: u8) -> (r: Vec<u8>)
    requires
        i < v@.len(),
    ensures
        r@ == v@.update(i as int, b),
{
    let mut v = v;
    let mut out: Vec<u8> = Vec::new();
    let mut k: usize = 0;
    while k < v.len()
        invariant
            i < v@.len(),
            k <= v@.len(),
            out@.len() == k as int,
            forall|j: int| 0 <= j < k ==> out@[j] == (if j == i { b } else { v@[j] }),
        decreases v@.len() - k,
    {
        if k == i {
            out.push(b);
        } else {
            out.push(v[k]);
        }
        k = k + 1;
    }
    proof {
        assert(out@ =~= v@.update(i as int, b));
    }
    out
}

/// Builds one echo request with a fresh random identifier, as one probe
/// sends it.
pub fn create_icmp_echo_request_packet() -> (r: Vec<u8>)
    ensures
        exists|ident: u16| r@ == sealed_echo_request(ident),
{
    let ident = random_u16();
    let r = build_echo_request(ident);
    proof {
        assert(r@ == sealed_echo_request(ident));
    }
    r
}

/// Everything read from the first echo reply of one probe.
#[derive(Debug)]
pub struct EchoReplyInfo {
    pub addr: IpAddress,
    pub rtt_ms: u64,
    pub identifier: u16,
    pub icmp_code: u8,
    pub icmp_type: u8,
    pub raw_packet: Vec<u8>,
    pub raw_payload: Vec<u8>,
    pub checksum: u16,
}

impl Clone for EchoReplyInfo {
    fn clone(&self) -> (r: Self)
        ensures
            r.addr == self.addr,
            r.rtt_ms == self.rtt_ms,
            r.identifier == self.identifier,
            r.icmp_code == self.icmp_code,
            r.icmp_type == self.icmp_type,
            r.raw_packet@ == self.raw_packet@,
            r.raw_payload@ == self.raw_payload@,
            r.checksum == self.checksum,
    {
        EchoReplyInfo {
            addr: self.addr,
            rtt_ms: self.rtt_ms,
            identifier: self.identifier,
            icmp_code: self.icmp_code,
            icmp_type: self.icmp_type,
            raw_packet: copy_bytes(&self.raw_packet, 0),
            raw_payload: copy_bytes(&self.raw_payload, 0),
            checksum: self.checksum,
        }
    }
}

fn copy_bytes(v: &Vec<u8>, from: usize) -> (r: Vec<u8>)
    requires
        from <= v@.len(),
    ensures
        r@ == v@.skip(from as int),
{
    let mut out: Vec<u8> = Vec::new();
    let mut k: usize = from;
    while k < v.len()
        invariant
            from <= k <= v@.len(),
            out@.len() == k - from,
            forall|j: int| 0 <= j < out@.len() ==> out@[j] == v@[from + j],
        decreases v@.len() - k,
    {
        out.push(v[k]);
        k = k + 1;
    }
    proof {
        assert(out@ =~= v@.skip(from as int));
    }
    out
}

/// Reads the first reply packet of a probe: its type and code, the
/// big-endian checksum and identifier and the payload past the 8-byte echo
/// header.  A packet shorter than the header gives nothing, as the packet
/// reader of the transport would refuse it.
pub fn parse_echo_reply(addr: IpAddress, rtt_ms: u64, packet: &Vec<u8>) -> (r: Option<
    EchoReplyInfo,
>)
    ensures
        packet@.len() < 8 ==> r is None,
        packet@.len() >= 8 ==> match r {
            Some(info) => {
                &&& info.addr == addr
                &&& info.rtt_ms == rtt_ms
                &&& info.icmp_type == packet@[0]
                &&& info.icmp_code == packet@[1]
                &&& info.checksum == packet@[2] as u16 * 256 + packet@[3] as u16
                &&& info.identifier == packet@[4] as u16 * 256 + packet@[5] as u16
                &&& info.raw_packet@ == packet@
                &&& info.raw_payload@ == packet@.skip(8)
            },
            None => false,
        },
{
    if packet.len() < 8 {
        return None;
    }
    let checksum: u16 = (packet[2] as u16) * 256 + (packet[3] as u16);
    let identifier: u16 = (packet[4] as u16) * 256 + (packet[5] as u16);
    Some(
        EchoReplyInfo {
            addr,
            rtt_ms,
            identifier,
            icmp_code: packet[1],
            icmp_type: packet[0],
            raw_packet: copy_bytes(packet, 0),
            raw_payload: copy_bytes(packet, 8),
            checksum,
        },
    )
}

/// What the poll loop of one probe does next.
#[derive(Debug)]
pub enum PingPollDecision {
    /// Sleep one more check-up interval and look again.
    KeepWaiting,
    /// The listener recorded a transport error: give it back.
    Fail(String),
    /// A reply arrived, or the timeout passed with none: hand back
    /// whatever the listener caught.
    Finish(Option<EchoReplyInfo>),
}

/// One decision of the probe's poll loop over the shared status cell: an
/// error read there fails the probe; a received reply, or `timeout_ms`
/// gone by since the send, ends it with whatever arrived; otherwise the
/// loop sleeps and looks again.
pub fn ping_poll_step(
    got_reply: bool,
    reply: Option<EchoReplyInfo>,
    err: Option<String>,
    elapsed_ms: u64,
    timeout_ms: u64,
) -> (r: PingPollDecision)
    ensures
        match r {
            PingPollDecision::Fail(e) => err matches Some(e0) && e == e0,
            PingPollDecision::Finish(rep) => err is None && (got_reply || elapsed_ms > timeout_ms)
                && rep == reply,
            PingPollDecision::KeepWaiting => err is None && !got_reply && elapsed_ms <= timeout_ms,
        },
{
    match err {
        Some(e) => PingPollDecision::Fail(e),
        None => {
            if got_reply || elapsed_ms > timeout_ms {
                PingPollDecision::Finish(reply)
            } else {
                PingPollDecision::KeepWaiting
            }
        },
    }
}

} // verus!
