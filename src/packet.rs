//! Raw-probe packets: TCP scan headers, ICMP echo requests, the Internet
//! checksum, and the interpretation of TCP replies.

use vstd::prelude::*;
use crate::scan::{PortState, ScanMethod};

verus! {

/// TCP flag bits.
pub const TCP_FIN: u8 = 0x01;
pub const TCP_SYN: u8 = 0x02;
pub const TCP_RST: u8 = 0x04;
pub const TCP_PSH: u8 = 0x08;
pub const TCP_ACK: u8 = 0x10;
pub const TCP_URG: u8 = 0x20;

/// The raw TCP scan variants.
#[derive(Debug, Clone, Copy, PartialEq, Eq, Structural)]
pub enum TcpScanFlags {
    Syn,
    Fin,
    Xmas,
    Null,
}

impl TcpScanFlags {
    pub open spec fn flags_spec(self) -> u8 {
        match self {
            TcpScanFlags::Syn => 0x02,
            TcpScanFlags::Fin => 0x01,
            TcpScanFlags::Xmas => 0x29,
            TcpScanFlags::Null => 0,
        }
    }

    /// The flag byte sent: SYN, FIN, FIN|PSH|URG, or none.
    pub fn flags(&self) -> (r: u8)
        ensures
            r == self.flags_spec(),
    {
        match self {
            TcpScanFlags::Syn => TCP_SYN,
            TcpScanFlags::Fin => TCP_FIN,
            TcpScanFlags::Xmas => 0x29,
            TcpScanFlags::Null => 0,
        }
    }

    pub open spec fn name_spec(self) -> Seq<char> {
        match self {
            TcpScanFlags::Syn => "SYN"@,
            TcpScanFlags::Fin => "FIN"@,
            TcpScanFlags::Xmas => "Xmas"@,
            TcpScanFlags::Null => "NULL"@,
        }
    }

    pub fn name(&self) -> (r: &'static str)
        ensures
            r@ == self.name_spec(),
    {
        match self {
            TcpScanFlags::Syn => "SYN",
            TcpScanFlags::Fin => "FIN",
            TcpScanFlags::Xmas => "Xmas",
            TcpScanFlags::Null => "NULL",
        }
    }
}

/// The raw variant used for a scan method; methods without a raw variant
/// fall back to SYN.
pub fn get_scan_flags(method: &ScanMethod) -> (r: TcpScanFlags)
    ensures
        r == match *method {
            ScanMethod::Fin => TcpScanFlags::Fin,
            ScanMethod::Xmas => TcpScanFlags::Xmas,
            ScanMethod::Null => TcpScanFlags::Null,
            _ => TcpScanFlags::Syn,
        },
{
    match method {
        ScanMethod::Syn => TcpScanFlags::Syn,
        ScanMethod::Fin => TcpScanFlags::Fin,
        ScanMethod::Xmas => TcpScanFlags::Xmas,
        ScanMethod::Null => TcpScanFlags::Null,
        _ => TcpScanFlags::Syn,
    }
}

/// The fields of a received TCP segment that scans look at.
#[derive(Debug, Clone, Copy, PartialEq, Eq, Structural)]
pub struct TcpResponse {
    pub source_port: u16,
    pub dest_port: u16,
    pub flags: u8,
    pub is_syn_ack: bool,
    pub is_rst: bool,
}

impl TcpResponse {
    /// Classifies a segment by its flag byte.
    pub fn new(source_port: u16, dest_port: u16, flags: u8) -> (r: Self)
        ensures
            r.source_port == source_port,
            r.dest_port == dest_port,
            r.flags == flags,
            r.is_syn_ack == (flags & TCP_SYN != 0 && flags & TCP_ACK != 0),
            r.is_rst == (flags & TCP_RST != 0),
    {
        TcpResponse {
            source_port,
            dest_port,
            flags,
            is_syn_ack: flags & TCP_SYN != 0 && flags & TCP_ACK != 0,
            is_rst: flags & TCP_RST != 0,
        }
    }
}

pub open spec fn reply_state(response: TcpResponse, scan: TcpScanFlags) -> PortState {
    match scan {
        TcpScanFlags::Syn => if response.is_syn_ack {
            PortState::Open
        } else if response.is_rst {
            PortState::Closed
        } else {
            PortState::Filtered
        },
        _ => if response.is_rst {
            PortState::Closed
        } else {
            PortState::Open
        },
    }
}

/// State of a port that answered: for SYN, SYN+ACK is open, RST closed and
/// anything else filtered; for FIN, Xmas and NULL, RST is closed and
/// anything else open.
pub fn determine_port_state(response: &TcpResponse, scan_flags: TcpScanFlags) -> (r: PortState)
    ensures
        r == reply_state(*response, scan_flags),
{
    match scan_flags {
        TcpScanFlags::Syn => {
            if response.is_syn_ack {
                PortState::Open
            } else if response.is_rst {
                PortState::Closed
            } else {
                PortState::Filtered
            }
        },
        TcpScanFlags::Fin | TcpScanFlags::Xmas | TcpScanFlags::Null => {
            if response.is_rst {
                PortState::Closed
            } else {
                PortState::Open
            }
        },
    }
}

pub open spec fn silent_state(scan: TcpScanFlags) -> PortState {
    match scan {
        TcpScanFlags::Syn => PortState::Filtered,
        _ => PortState::Open,
    }
}

/// State of a port that never answered: filtered for SYN, open otherwise.
pub fn no_reply_state(scan_flags: TcpScanFlags) -> (r: PortState)
    ensures
        r == silent_state(scan_flags),
{
    match scan_flags {
        TcpScanFlags::Syn => PortState::Filtered,
        _ => PortState::Open,
    }
}

/// The state recorded last for `port`, if any reply named it.
pub open spec fn last_reply(replies: Seq<(u16, PortState)>, port: u16) -> Option<PortState>
    decreases replies.len(),
{
    if replies.len() == 0 {
        None
    } else if replies.last().0 == port {
        Some(replies.last().1)
    } else {
        last_reply(replies.drop_last(), port)
    }
}

pub open spec fn raw_state_spec(replies: Seq<(u16, PortState)>, port: u16, scan: TcpScanFlags) -> PortState {
    match last_reply(replies, port) {
        Some(s) => s,
        None => silent_state(scan),
    }
}

/// States of the scanned ports from the replies collected (port and state,
/// in order of arrival; a later reply for a port replaces an earlier one).
pub fn raw_scan_states(
    ports: &Vec<u16>,
    replies: &Vec<(u16, PortState)>,
    scan_flags: TcpScanFlags,
) -> (r: Vec<PortState>)
    ensures
        r@.len() == ports@.len(),
        forall|i: int|
            0 <= i < ports@.len() ==> #[trigger] r@[i] == raw_state_spec(
                replies@,
                ports@[i],
                scan_flags,
            ),
{
    let mut out: Vec<PortState> = Vec::new();
    let mut i: usize = 0;
    while i < ports.len()
        invariant
            i <= ports@.len(),
            out@.len() == i,
            forall|j: int|
                0 <= j < i ==> #[trigger] out@[j] == raw_state_spec(
                    replies@,
                    ports@[j],
                    scan_flags,
                ),
        decreases ports@.len() - i,
    {
        let p = ports[i];
        let mut k: usize = replies.len();
        let mut st = no_reply_state(scan_flags);
        let mut done = false;
        assert(replies@.take(k as int) =~= replies@);
        while k > 0 && !done
            invariant
                k <= replies@.len(),
                !done ==> raw_state_spec(replies@, p, scan_flags) == raw_state_spec(
                    replies@.take(k as int),
                    p,
                    scan_flags,
                ),
                !done ==> st == silent_state(scan_flags),
                done ==> st == raw_state_spec(replies@, p, scan_flags),
            decreases k,
        {
            assert(replies@.take(k as int).drop_last() =~= replies@.take(k as int - 1));
            let (q, s) = replies[k - 1];
            if q == p {
                st = s;
                done = true;
            }
            k = k - 1;
        }
        proof {
            if !done {
                assert(replies@.take(0) =~= Seq::<(u16, PortState)>::empty());
            }
        }
        out.push(st);
        i = i + 1;
    }
    out
}

/// Big-endian 16-bit word `k` of `data`; a missing last byte counts as zero.
pub open spec fn word_at(data: Seq<u8>, k: int) -> nat {
    (data[2 * k] as nat) * 256 + if 2 * k + 1 < data.len() {
        data[2 * k + 1] as nat
    } else {
        0nat
    }
}

/// Sum of the first `m` words of `data`.
pub open spec fn words_sum(data: Seq<u8>, m: int) -> nat
    decreases m,
{
    if m <= 0 {
        0
    } else {
        words_sum(data, m - 1) + word_at(data, m - 1)
    }
}

/// Number of 16-bit words of `data`, the last one possibly padded.
pub open spec fn word_count(data: Seq<u8>) -> int {
    (data.len() as int + 1) / 2
}

/// The accumulator folded into 16 bits with end-around carry.
pub open spec fn fold16(s: nat) -> nat
    decreases s,
{
    if s < 65536 {
        s
    } else {
        fold16(s % 65536 + s / 65536)
    }
}

/// One's-complement checksum over `data`, added to `initial`.
pub open spec fn checksum_with(initial: nat, data: Seq<u8>) -> u16 {
    (65535 - fold16(initial + words_sum(data, word_count(data)))) as u16
}

proof fn lemma_fold16_bound(s: nat)
    ensures
        fold16(s) < 65536,
    decreases s,
{
    if s >= 65536 {
        assert(s % 65536 + s / 65536 < s);
        lemma_fold16_bound(s % 65536 + s / 65536);
    }
}

proof fn lemma_words_sum_bound(data: Seq<u8>, m: int)
    ensures
        words_sum(data, m) <= (if m > 0 { m } else { 0 }) * 65535,
    decreases m,
{
    if m > 0 {
        lemma_words_sum_bound(data, m - 1);
        assert(word_at(data, m - 1) <= 65535);
    }
}

/// Folds and complements an accumulated sum.
fn fold_complement(sum: u128) -> (r: u16)
    ensures
        r == (65535 - fold16(sum as nat)) as u16,
{
    let mut s = sum;
    while s >= 65536
        invariant
            fold16(s as nat) == fold16(sum as nat),
        decreases s,
    {
        s = s % 65536 + s / 65536;
    }
    proof {
        lemma_fold16_bound(s as nat);
    }
    (65535 - s) as u16
}

/// Adds the 16-bit words of `data` to `initial`.
fn add_words(initial: u128, data: &Vec<u8>) -> (r: u128)
    requires
        initial <= 0x3_ffff_ffff_ffff_ffffu128,
    ensures
        r == initial + words_sum(data@, word_count(data@)),
{
    let n = data.len();
    let wc: usize = n / 2 + n % 2;
    assert(wc == word_count(data@));
    let mut sum: u128 = initial;
    let mut w: usize = 0;
    proof {
        lemma_words_sum_bound(data@, word_count(data@));
    }
    while w < wc
        invariant
            n == data@.len(),
            wc == word_count(data@),
            w <= wc,
            sum == initial + words_sum(data@, w as int),
            initial <= 0x3_ffff_ffff_ffff_ffffu128,
        decreases wc - w,
    {
        proof {
            lemma_words_sum_bound(data@, w as int);
        }
        let i = 2 * w;
        let hi = data[i] as u128;
        let lo = if i + 1 < n {
            data[i + 1] as u128
        } else {
            0
        };
        assert(word_at(data@, w as int) == hi * 256 + lo);
        sum = sum + hi * 256 + lo;
        w = w + 1;
    }
    sum
}

/// The Internet checksum of an ICMP message: one's-complement sum of its
/// big-endian 16-bit words (odd length padded with a zero byte), folded
/// with end-around carry and complemented.
pub fn calculate_icmp_checksum(data: &Vec<u8>) -> (r: u16)
    ensures
        r == checksum_with(0, data@),
{
    fold_complement(add_words(0, data))
}

/// The IPv4 pseudo-header sum for a TCP segment of `len` bytes.
pub open spec fn pseudo_header_sum(src: [u8; 4], dst: [u8; 4], len: nat) -> nat {
    (src[0] as nat) * 256 + (src[1] as nat) + (src[2] as nat) * 256 + (src[3] as nat) + (
    dst[0] as nat) * 256 + (dst[1] as nat) + (dst[2] as nat) * 256 + (dst[3] as nat) + 6 + len
}

/// TCP checksum of `segment` from `src` to `dst` over the IPv4 pseudo-header
/// `{src, dst, 0, 6, length}`.
pub fn tcp_checksum(src: [u8; 4], dst: [u8; 4], segment: &Vec<u8>) -> (r: u16)
    ensures
        r == checksum_with(pseudo_header_sum(src, dst, segment@.len()), segment@),
{
    let initial: u128 = (src[0] as u128) * 256 + (src[1] as u128) + (src[2] as u128) * 256 + (
    src[3] as u128) + (dst[0] as u128) * 256 + (dst[1] as u128) + (dst[2] as u128) * 256 + (
    dst[3] as u128) + 6 + (segment.len() as u128);
    fold_complement(add_words(initial, segment))
}

/// A 20-byte TCP header without options.
pub open spec fn tcp_header(
    source_port: u16,
    dest_port: u16,
    seq: u32,
    flags: u8,
    checksum: u16,
) -> Seq<u8> {
    seq![
        (source_port / 256) as u8,
        (source_port % 256) as u8,
        (dest_port / 256) as u8,
        (dest_port % 256) as u8,
        (seq / 0x100_0000) as u8,
        ((seq / 0x1_0000) % 256) as u8,
        ((seq / 256) % 256) as u8,
        (seq % 256) as u8,
        0u8,
        0u8,
        0u8,
        0u8,
        0x50u8,
        flags,
        0xffu8,
        0xffu8,
        (checksum / 256) as u8,
        (checksum % 256) as u8,
        0u8,
        0u8,
    ]
}

fn header_bytes(source_port: u16, dest_port: u16, seq: u32, flags: u8, checksum: u16) -> (r: Vec<
    u8,
>)
    ensures
        r@ == tcp_header(source_port, dest_port, seq, flags, checksum),
{
    let mut b: Vec<u8> = Vec::with_capacity(20);
    b.push((source_port / 256) as u8);
    b.push((source_port % 256) as u8);
    b.push((dest_port / 256) as u8);
    b.push((dest_port % 256) as u8);
    b.push((seq / 0x100_0000) as u8);
    b.push(((seq / 0x1_0000) % 256) as u8);
    b.push(((seq / 256) % 256) as u8);
    b.push((seq % 256) as u8);
    b.push(0);
    b.push(0);
    b.push(0);
    b.push(0);
    b.push(0x50);
    b.push(flags);
    b.push(0xff);
    b.push(0xff);
    b.push((checksum / 256) as u8);
    b.push((checksum % 256) as u8);
    b.push(0);
    b.push(0);
    assert(b@ =~= tcp_header(source_port, dest_port, seq, flags, checksum));
    b
}

/// A scan probe: a 20-byte TCP header (acknowledgement 0, data offset 5,
/// window 65535, urgent pointer 0) with the scan's flags and the checksum
/// over the IPv4 pseudo-header.
pub fn build_tcp_packet(
    source_ip: [u8; 4],
    source_port: u16,
    dest_ip: [u8; 4],
    dest_port: u16,
    flags: TcpScanFlags,
    seq: u32,
) -> (r: Vec<u8>)
    ensures
        r@ == tcp_header(
            source_port,
            dest_port,
            seq,
            flags.flags_spec(),
            checksum_with(
                pseudo_header_sum(source_ip, dest_ip, 20),
                tcp_header(source_port, dest_port, seq, flags.flags_spec(), 0),
            ),
        ),
{
    let f = flags.flags();
    let blank = header_bytes(source_port, dest_port, seq, f, 0);
    let checksum = tcp_checksum(source_ip, dest_ip, &blank);
    header_bytes(source_port, dest_port, seq, f, checksum)
}

/// `rand::random`: a value drawn from the thread-local generator; nothing is
/// known of it.
pub assume_specification<T>[ rand::random::<T> ]() -> (r: T)
    where
        rand::distributions::Standard: rand::distributions::Distribution<T>,
;

/// The port of the dynamic range `[49152, 65535]` that a 16-bit value
/// selects.
pub open spec fn source_port_spec(x: u16) -> u16 {
    (49152 + x % 16384) as u16
}

/// The source port a drawn 16-bit value selects in the dynamic range
/// `[49152, 65535]`.
pub fn source_port_from(x: u16) -> (r: u16)
    ensures
        r == 49152 + x % 16384,
        r == source_port_spec(x),
{
    x % 16384 + 49152
}

/// A source port drawn from the dynamic range `[49152, 65535]`: a random
/// 16-bit value mapped by `source_port_from`.
pub fn random_source_port() -> (r: u16)
    ensures
        49152 <= r,
        exists|x: u16| r == #[trigger] source_port_spec(x),
{
    let x: u16 = rand::random();
    source_port_from(x)
}

/// A random initial sequence number.
pub fn random_seq() -> u32 {
    rand::random()
}

/// A TCP segment received inside an IPv4 packet: the sender's address and
/// the segment's ports and flags, when the packet is IPv4 carrying TCP
/// and long enough to hold both headers.
pub open spec fn ipv4_tcp_reply_spec(p: Seq<u8>) -> Option<([u8; 4], u16, u16, u8)> {
    if p.len() < 20 || p[0] / 16 != 4 || p[9] != 6 {
        None
    } else {
        let ihl = ((p[0] % 16) as int) * 4;
        if ihl < 20 || p.len() < ihl + 20 {
            None
        } else {
            Some(
                (
                    [p[12], p[13], p[14], p[15]],
                    (p[ihl] as int * 256 + p[ihl + 1] as int) as u16,
                    (p[ihl + 2] as int * 256 + p[ihl + 3] as int) as u16,
                    p[ihl + 13],
                ),
            )
        }
    }
}

/// Reads the sender and the TCP reply out of a raw IPv4 packet; `None` for
/// anything else.
pub fn parse_ipv4_tcp_reply(p: &Vec<u8>) -> (r: Option<([u8; 4], TcpResponse)>)
    ensures
        match (r, ipv4_tcp_reply_spec(p@)) {
            (Some((ip, resp)), Some((sip, sport, dport, flags))) => ip == sip && resp.source_port
                == sport && resp.dest_port == dport && resp.flags == flags && resp.is_syn_ack == (
                flags & TCP_SYN != 0 && flags & TCP_ACK != 0) && resp.is_rst == (flags & TCP_RST
                != 0),
            (None, None) => true,
            _ => false,
        },
{
    if p.len() < 20 || p[0] / 16 != 4 || p[9] != 6 {
        return None;
    }
    let ihl = ((p[0] % 16) as usize) * 4;
    if ihl < 20 || p.len() < ihl + 20 {
        return None;
    }
    let sport = (p[ihl] as u16) * 256 + p[ihl + 1] as u16;
    let dport = (p[ihl + 2] as u16) * 256 + p[ihl + 3] as u16;
    let ip: [u8; 4] = [p[12], p[13], p[14], p[15]];
    Some((ip, TcpResponse::new(sport, dport, p[ihl + 13])))
}

/// Bytes of IP and ICMP header around an echo payload.
pub open spec fn echo_overhead(ipv4: bool) -> u16 {
    if ipv4 {
        28
    } else {
        48
    }
}

/// An echo request of `len` bytes before its checksum is set: type (8 for
/// IPv4, 128 for IPv6), code 0, identifier 0x1234, sequence 1, zero payload.
pub open spec fn echo_template(len: nat, ipv4: bool) -> Seq<u8> {
    Seq::new(
        len,
        |i: int|
            if i == 0 {
                if ipv4 {
                    8u8
                } else {
                    128u8
                }
            } else if i == 4 {
                0x12u8
            } else if i == 5 {
                0x34u8
            } else if i == 7 {
                1u8
            } else {
                0u8
            },
    )
}

/// The echo request that probes a path MTU of `mtu_size` bytes; `None` when
/// the size leaves no room for a payload.
pub open spec fn echo_request_spec(mtu_size: u16, ipv4: bool) -> Option<Seq<u8>> {
    if mtu_size <= echo_overhead(ipv4) {
        None
    } else {
        let payload = (mtu_size - echo_overhead(ipv4)) as nat;
        let len = if payload < 8 {
            8
        } else {
            payload
        };
        let t = echo_template(len, ipv4);
        let c = checksum_with(0, t);
        Some(t.update(2, (c / 256) as u8).update(3, (c % 256) as u8))
    }
}

/// Builds the ICMP echo request for an MTU probe: payload size is the MTU
/// less the IP and ICMP overhead (28 for IPv4, 48 for IPv6), at least 8 bytes,
/// with the checksum in bytes 2 and 3.
pub fn build_echo_request(mtu_size: u16, ipv4: bool) -> (r: Option<Vec<u8>>)
    ensures
        match (r, echo_request_spec(mtu_size, ipv4)) {
            (Some(v), Some(w)) => v@ == w,
            (None, None) => true,
            _ => false,
        },
{
    let overhead: u16 = if ipv4 {
        28
    } else {
        48
    };
    if mtu_size <= overhead {
        return None;
    }
    let payload = (mtu_size - overhead) as usize;
    let len: usize = if payload < 8 {
        8
    } else {
        payload
    };
    let mut packet: Vec<u8> = Vec::with_capacity(len);
    let mut i: usize = 0;
    while i < len
        invariant
            i <= len,
            packet@ == echo_template(len as nat, ipv4).take(i as int),
        decreases len - i,
    {
        let b: u8 = if i == 0 {
            if ipv4 {
                8
            } else {
                128
            }
        } else if i == 4 {
            0x12
        } else if i == 5 {
            0x34
        } else if i == 7 {
            1
        } else {
            0
        };
        packet.push(b);
        i = i + 1;
        assert(packet@ =~= echo_template(len as nat, ipv4).take(i as int));
    }
    assert(packet@ =~= echo_template(len as nat, ipv4));
    let c = calculate_icmp_checksum(&packet);
    packet.set(2, (c / 256) as u8);
    packet.set(3, (c % 256) as u8);
    Some(packet)
}

} // verus!
