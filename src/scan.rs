//! Port-scan result taxonomy: port states, per-port results, summaries and
//! the rules that turn probe outcomes into states.

use vstd::prelude::*;

verus! {

broadcast use vstd::seq_lib::group_to_multiset_ensures;

/// How a port scan probes its target.
#[derive(Debug, Clone, Copy, PartialEq, Eq, Structural)]
pub enum ScanMethod {
    Tcp,
    Syn,
    Fin,
    Xmas,
    Null,
    Udp,
}

impl Default for ScanMethod {
    fn default() -> (r: Self)
        ensures
            r == ScanMethod::Tcp,
    {
        ScanMethod::Tcp
    }
}

#[derive(Debug, Clone, Copy, PartialEq, Eq, Structural)]
pub enum PortState {
    Open,
    Closed,
    Filtered,
}

impl PortState {
    pub open spec fn name_spec(self) -> Seq<char> {
        match self {
            PortState::Open => "open"@,
            PortState::Closed => "closed"@,
            PortState::Filtered => "filtered"@,
        }
    }

    /// Lower-case name, as serialized.
    pub fn name(&self) -> (r: &'static str)
        ensures
            r@ == self.name_spec(),
    {
        match self {
            PortState::Open => "open",
            PortState::Closed => "closed",
            PortState::Filtered => "filtered",
        }
    }
}

#[derive(Debug, Clone)]
pub struct PortResult {
    pub port: u16,
    pub state: PortState,
    pub service: Option<String>,
}

#[derive(Debug, Clone, Copy, PartialEq, Eq, Structural)]
pub struct ScanSummary {
    pub total_scanned: usize,
    pub open: usize,
    pub closed: usize,
    pub filtered: usize,
}

/// Outcome of a port scan. `duration_us` is the wall time of the scan in
/// microseconds.
#[derive(Debug, Clone)]
pub struct ScanResult {
    pub target: String,
    pub method: String,
    pub scan_time: String,
    pub duration_us: u64,
    pub ports: Vec<PortResult>,
    pub summary: ScanSummary,
}

/// Number of results in state `st`.
pub open spec fn count_state(ps: Seq<PortResult>, st: PortState) -> nat
    decreases ps.len(),
{
    if ps.len() == 0 {
        0
    } else {
        count_state(ps.drop_last(), st) + if ps.last().state == st {
            1nat
        } else {
            0nat
        }
    }
}

impl ScanResult {
    /// The summary counts the ports by state.
    pub open spec fn wf(&self) -> bool {
        &&& self.summary.total_scanned == self.ports@.len()
        &&& self.summary.open == count_state(self.ports@, PortState::Open)
        &&& self.summary.closed == count_state(self.ports@, PortState::Closed)
        &&& self.summary.filtered == count_state(self.ports@, PortState::Filtered)
    }
}

proof fn lemma_counts_partition(ps: Seq<PortResult>)
    ensures
        count_state(ps, PortState::Open) + count_state(ps, PortState::Closed) + count_state(
            ps,
            PortState::Filtered,
        ) == ps.len(),
    decreases ps.len(),
{
    if ps.len() > 0 {
        lemma_counts_partition(ps.drop_last());
    }
}

/// Every well-formed scan result satisfies
/// `|ports| = total_scanned = open + closed + filtered`.
pub proof fn law_scan_summary_partitions(r: ScanResult)
    requires
        r.wf(),
    ensures
        r.ports@.len() == r.summary.total_scanned,
        r.summary.total_scanned == r.summary.open + r.summary.closed + r.summary.filtered,
{
    lemma_counts_partition(r.ports@);
}

/// Well-known TCP service names, used to label open ports.
pub open spec fn tcp_service_spec(port: u16) -> Option<Seq<char>> {
    if port == 20 {
        Some("ftp-data"@)
    } else if port == 21 {
        Some("ftp"@)
    } else if port == 22 {
        Some("ssh"@)
    } else if port == 23 {
        Some("telnet"@)
    } else if port == 25 {
        Some("smtp"@)
    } else if port == 53 {
        Some("dns"@)
    } else if port == 80 {
        Some("http"@)
    } else if port == 110 {
        Some("pop3"@)
    } else if port == 111 {
        Some("rpcbind"@)
    } else if port == 135 {
        Some("msrpc"@)
    } else if port == 139 {
        Some("netbios-ssn"@)
    } else if port == 143 {
        Some("imap"@)
    } else if port == 443 {
        Some("https"@)
    } else if port == 445 {
        Some("microsoft-ds"@)
    } else if port == 993 {
        Some("imaps"@)
    } else if port == 995 {
        Some("pop3s"@)
    } else if port == 1433 {
        Some("ms-sql-s"@)
    } else if port == 1521 {
        Some("oracle"@)
    } else if port == 3306 {
        Some("mysql"@)
    } else if port == 3389 {
        Some("ms-wbt-server"@)
    } else if port == 5432 {
        Some("postgresql"@)
    } else if port == 5900 {
        Some("vnc"@)
    } else if port == 6379 {
        Some("redis"@)
    } else if port == 8080 {
        Some("http-proxy"@)
    } else if port == 8443 {
        Some("https-alt"@)
    } else if port == 27017 {
        Some("mongodb"@)
    } else {
        None
    }
}

fn tcp_service_str(port: u16) -> (r: Option<&'static str>)
    ensures
        match (r, tcp_service_spec(port)) {
            (Some(a), Some(b)) => a@ == b,
            (None, None) => true,
            _ => false,
        },
{
    match port {
        20 => Some("ftp-data"),
        21 => Some("ftp"),
        22 => Some("ssh"),
        23 => Some("telnet"),
        25 => Some("smtp"),
        53 => Some("dns"),
        80 => Some("http"),
        110 => Some("pop3"),
        111 => Some("rpcbind"),
        135 => Some("msrpc"),
        139 => Some("netbios-ssn"),
        143 => Some("imap"),
        443 => Some("https"),
        445 => Some("microsoft-ds"),
        993 => Some("imaps"),
        995 => Some("pop3s"),
        1433 => Some("ms-sql-s"),
        1521 => Some("oracle"),
        3306 => Some("mysql"),
        3389 => Some("ms-wbt-server"),
        5432 => Some("postgresql"),
        5900 => Some("vnc"),
        6379 => Some("redis"),
        8080 => Some("http-proxy"),
        8443 => Some("https-alt"),
        27017 => Some("mongodb"),
        _ => None,
    }
}

/// Option of an owned string, matching an optional spec string.
pub open spec fn opt_str_is(r: Option<String>, s: Option<Seq<char>>) -> bool {
    match (r, s) {
        (Some(a), Some(b)) => a@ == b,
        (None, None) => true,
        _ => false,
    }
}

fn owned_opt(s: Option<&'static str>) -> (r: Option<String>)
    ensures
        match (r, s) {
            (Some(a), Some(b)) => a@ == b@,
            (None, None) => true,
            _ => false,
        },
{
    match s {
        Some(x) => Some(String::from_str(x)),
        None => None,
    }
}

/// Service label of a well-known TCP port (`22` is `ssh`, `443` is
/// `https`); `None` for other ports.
pub fn get_service_name(port: u16) -> (r: Option<String>)
    ensures
        opt_str_is(r, tcp_service_spec(port)),
{
    owned_opt(tcp_service_str(port))
}

/// Well-known UDP service names.
pub open spec fn udp_service_spec(port: u16) -> Option<Seq<char>> {
    if port == 53 {
        Some("dns"@)
    } else if port == 67 {
        Some("dhcp-server"@)
    } else if port == 68 {
        Some("dhcp-client"@)
    } else if port == 69 {
        Some("tftp"@)
    } else if port == 123 {
        Some("ntp"@)
    } else if port == 137 {
        Some("netbios-ns"@)
    } else if port == 138 {
        Some("netbios-dgm"@)
    } else if port == 161 {
        Some("snmp"@)
    } else if port == 162 {
        Some("snmptrap"@)
    } else if port == 500 {
        Some("isakmp"@)
    } else if port == 514 {
        Some("syslog"@)
    } else if port == 520 {
        Some("rip"@)
    } else if port == 1194 {
        Some("openvpn"@)
    } else if port == 1900 {
        Some("ssdp"@)
    } else if port == 4500 {
        Some("ipsec-nat-t"@)
    } else if port == 5353 {
        Some("mdns"@)
    } else {
        None
    }
}

/// Service label of a well-known UDP port; `None` for other ports.
pub fn get_udp_service_name(port: u16) -> (r: Option<String>)
    ensures
        opt_str_is(r, udp_service_spec(port)),
{
    let s: Option<&'static str> = match port {
        53 => Some("dns"),
        67 => Some("dhcp-server"),
        68 => Some("dhcp-client"),
        69 => Some("tftp"),
        123 => Some("ntp"),
        137 => Some("netbios-ns"),
        138 => Some("netbios-dgm"),
        161 => Some("snmp"),
        162 => Some("snmptrap"),
        500 => Some("isakmp"),
        514 => Some("syslog"),
        520 => Some("rip"),
        1194 => Some("openvpn"),
        1900 => Some("ssdp"),
        4500 => Some("ipsec-nat-t"),
        5353 => Some("mdns"),
        _ => None,
    };
    owned_opt(s)
}

/// Which service table labels the open ports of a scan.
#[derive(Debug, Clone, Copy, PartialEq, Eq, Structural)]
pub enum Transport {
    Tcp,
    Udp,
}

pub open spec fn service_spec(t: Transport, port: u16) -> Option<Seq<char>> {
    match t {
        Transport::Tcp => tcp_service_spec(port),
        Transport::Udp => udp_service_spec(port),
    }
}

/// The result recorded for one port: open ports carry their service label.
pub open spec fn port_result_ok(r: PortResult, port: u16, state: PortState, t: Transport) -> bool {
    &&& r.port == port
    &&& r.state == state
    &&& if state == PortState::Open {
        opt_str_is(r.service, service_spec(t, port))
    } else {
        r.service is None
    }
}

/// Assembles a scan result from the scanned ports and their states, in
/// order, labelling open ports from the service table of `transport` and
/// counting the states into the summary.
pub fn build_scan_result(
    target: String,
    method: String,
    scan_time: String,
    duration_us: u64,
    ports: &Vec<u16>,
    states: &Vec<PortState>,
    transport: Transport,
) -> (r: ScanResult)
    requires
        ports@.len() == states@.len(),
    ensures
        r.wf(),
        r.target == target,
        r.method == method,
        r.scan_time == scan_time,
        r.duration_us == duration_us,
        r.ports@.len() == ports@.len(),
        forall|i: int|
            0 <= i < ports@.len() ==> port_result_ok(
                #[trigger] r.ports@[i],
                ports@[i],
                states@[i],
                transport,
            ),
{
    let n = ports.len();
    let mut results: Vec<PortResult> = Vec::new();
    let mut open: usize = 0;
    let mut closed: usize = 0;
    let mut filtered: usize = 0;
    let mut i: usize = 0;
    while i < n
        invariant
            n == ports@.len(),
            n == states@.len(),
            i <= n,
            results@.len() == i,
            open == count_state(results@, PortState::Open),
            closed == count_state(results@, PortState::Closed),
            filtered == count_state(results@, PortState::Filtered),
            forall|j: int|
                0 <= j < i ==> port_result_ok(
                    #[trigger] results@[j],
                    ports@[j],
                    states@[j],
                    transport,
                ),
        decreases n - i,
    {
        proof {
            lemma_counts_partition(results@);
        }
        let port = ports[i];
        let state = states[i];
        let service = if state == PortState::Open {
            match transport {
                Transport::Tcp => get_service_name(port),
                Transport::Udp => get_udp_service_name(port),
            }
        } else {
            None
        };
        let ghost before = results@;
        results.push(PortResult { port, state, service });
        assert(results@.drop_last() =~= before);
        match state {
            PortState::Open => open = open + 1,
            PortState::Closed => closed = closed + 1,
            PortState::Filtered => filtered = filtered + 1,
        }
        i = i + 1;
    }
    let summary = ScanSummary { total_scanned: n, open, closed, filtered };
    ScanResult { target, method, scan_time, duration_us, ports: results, summary }
}

/// Port results ordered by port number.
pub open spec fn ports_ascending(v: Seq<(u16, PortState)>) -> bool {
    forall|i: int, j: int| 0 <= i < j < v.len() ==> v[i].0 <= v[j].0
}

/// The `(port, state)` pairs of a list of port results.
pub open spec fn pairs_of(ps: Seq<PortResult>) -> Seq<(u16, PortState)> {
    Seq::new(ps.len(), |i: int| (ps[i].port, ps[i].state))
}

/// Sorts `(port, state)` pairs by port, in place, keeping every pair.
pub fn sort_by_port(v: &mut Vec<(u16, PortState)>)
    ensures
        ports_ascending(final(v)@),
        final(v)@.to_multiset() == old(v)@.to_multiset(),
        final(v)@.len() == old(v)@.len(),
{
    let n = v.len();
    let mut i: usize = 1;
    while i < n
        invariant
            n == v.len(),
            1 <= i,
            forall|a: int, b: int| 0 <= a < b < i && b < n ==> v@[a].0 <= v@[b].0,
            v@.to_multiset() == old(v)@.to_multiset(),
            v@.len() == old(v)@.len(),
        decreases n - i,
    {
        let mut j: usize = i;
        while j > 0 && v[j - 1].0 > v[j].0
            invariant
                n == v.len(),
                0 <= j <= i < n,
                forall|a: int, b: int|
                    0 <= a < b <= i && a != j && b != j ==> v@[a].0 <= v@[b].0,
                forall|b: int| j < b <= i ==> v@[j as int].0 <= v@[b].0,
                v@.to_multiset() == old(v)@.to_multiset(),
                v@.len() == old(v)@.len(),
            decreases j,
        {
            let x = v[j];
            let y = v[j - 1];
            v.set(j - 1, x);
            v.set(j, y);
            j = j - 1;
        }
        i = i + 1;
    }
}

/// Assembles a TCP-connect scan result: the probed `(port, state)` pairs
/// sorted by port, open ports labelled from the TCP service table, the
/// states counted into the summary.
pub fn build_sorted_scan_result(
    target: String,
    method: String,
    scan_time: String,
    duration_us: u64,
    results: Vec<(u16, PortState)>,
) -> (r: ScanResult)
    ensures
        r.wf(),
        r.target == target,
        r.method == method,
        r.scan_time == scan_time,
        r.duration_us == duration_us,
        ports_ascending(pairs_of(r.ports@)),
        pairs_of(r.ports@).to_multiset() == results@.to_multiset(),
        forall|i: int|
            0 <= i < r.ports@.len() ==> port_result_ok(
                #[trigger] r.ports@[i],
                r.ports@[i].port,
                r.ports@[i].state,
                Transport::Tcp,
            ),
{
    let mut sorted = results;
    sort_by_port(&mut sorted);
    let mut ports: Vec<u16> = Vec::new();
    let mut states: Vec<PortState> = Vec::new();
    let mut i: usize = 0;
    while i < sorted.len()
        invariant
            i <= sorted@.len(),
            ports@.len() == i,
            states@.len() == i,
            forall|k: int| 0 <= k < i ==> #[trigger] ports@[k] == sorted@[k].0 && states@[k] == sorted@[k].1,
        decreases sorted@.len() - i,
    {
        let (p, st) = sorted[i];
        ports.push(p);
        states.push(st);
        i = i + 1;
    }
    let r = build_scan_result(target, method, scan_time, duration_us, &ports, &states, Transport::Tcp);
    assert(pairs_of(r.ports@) =~= sorted@);
    r
}

/// How a timed TCP handshake ended.
#[derive(Debug, Clone, Copy, PartialEq, Eq, Structural)]
pub enum ConnectOutcome {
    Connected,
    Refused,
    TimedOut,
    OtherError,
}

/// TCP-connect scan rule: a completed handshake is open, a refused one is
/// closed, a timeout or any other error is filtered.
pub fn connect_port_state(outcome: ConnectOutcome) -> (r: PortState)
    ensures
        r == match outcome {
            ConnectOutcome::Connected => PortState::Open,
            ConnectOutcome::Refused => PortState::Closed,
            _ => PortState::Filtered,
        },
{
    match outcome {
        ConnectOutcome::Connected => PortState::Open,
        ConnectOutcome::Refused => PortState::Closed,
        _ => PortState::Filtered,
    }
}

pub open spec fn udp_state_spec(port: u16, closed: Seq<u16>) -> PortState {
    if closed.contains(port) {
        PortState::Closed
    } else {
        PortState::Open
    }
}

/// UDP scan rule: ports reported closed are closed; without a reply a port
/// counts as open.
pub fn udp_port_states(ports: &Vec<u16>, closed: &Vec<u16>) -> (r: Vec<PortState>)
    ensures
        r@.len() == ports@.len(),
        forall|i: int| 0 <= i < ports@.len() ==> #[trigger] r@[i] == udp_state_spec(ports@[i], closed@),
{
    let mut out: Vec<PortState> = Vec::new();
    let mut i: usize = 0;
    while i < ports.len()
        invariant
            i <= ports@.len(),
            out@.len() == i,
            forall|j: int| 0 <= j < i ==> #[trigger] out@[j] == udp_state_spec(ports@[j], closed@),
        decreases ports@.len() - i,
    {
        let p = ports[i];
        let mut found = false;
        let mut k: usize = 0;
        while k < closed.len()
            invariant
                k <= closed@.len(),
                found == (exists|m: int| 0 <= m < k && closed@[m] == p),
            decreases closed@.len() - k,
        {
            if closed[k] == p {
                found = true;
            }
            k = k + 1;
        }
        proof {
            if closed@.contains(p) {
                let m = choose|m: int| 0 <= m < closed@.len() && closed@[m] == p;
                assert(exists|m: int| 0 <= m < k && closed@[m] == p);
            }
        }
        out.push(
            if found {
                PortState::Closed
            } else {
                PortState::Open
            },
        );
        i = i + 1;
    }
    out
}

} // verus!
