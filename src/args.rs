//! Option records of the subcommands, as plain values.

use vstd::prelude::*;

verus! {

/// Direction of a bandwidth test.
#[derive(Debug, Clone, Copy, PartialEq, Eq, Structural)]
pub enum BandwidthDirection {
    Up,
    Down,
    Both,
}

impl Default for BandwidthDirection {
    fn default() -> (r: Self)
        ensures
            r == BandwidthDirection::Both,
    {
        BandwidthDirection::Both
    }
}

impl BandwidthDirection {
    /// Whether the test uploads (first connection) and whether it
    /// downloads (second connection).
    pub fn phases(&self) -> (r: (bool, bool))
        ensures
            r.0 == (*self != BandwidthDirection::Down),
            r.1 == (*self != BandwidthDirection::Up),
    {
        match self {
            BandwidthDirection::Up => (true, false),
            BandwidthDirection::Down => (false, true),
            BandwidthDirection::Both => (true, true),
        }
    }
}

/// Options of `diag ping`.
#[derive(Debug, Clone)]
pub struct PingArgs {
    pub target: String,
    pub count: u32,
    pub interval: u64,
    pub timeout: u64,
    pub tcp: bool,
    pub port: u16,
    pub size: usize,
    pub output: Option<String>,
}

#[derive(Debug, Clone, Copy, PartialEq, Eq, Structural)]
pub enum TraceMode {
    Udp,
    Tcp,
    Icmp,
}

impl Default for TraceMode {
    fn default() -> (r: Self)
        ensures
            r == TraceMode::Udp,
    {
        TraceMode::Udp
    }
}

/// Options of `diag trace`.
#[derive(Debug, Clone)]
pub struct TraceArgs {
    pub target: String,
    pub max_hops: u8,
    pub mode: TraceMode,
    pub queries: u8,
    pub timeout: u64,
    pub port: u16,
    pub output: Option<String>,
}

#[derive(Debug, Clone, Copy, PartialEq, Eq, Structural)]
pub enum DnsRecordType {
    A,
    Aaaa,
    Mx,
    Txt,
    Ns,
    Cname,
    Soa,
    Ptr,
    All,
}

impl Default for DnsRecordType {
    fn default() -> (r: Self)
        ensures
            r == DnsRecordType::A,
    {
        DnsRecordType::A
    }
}

impl DnsRecordType {
    pub open spec fn expand_spec(self) -> Seq<DnsRecordType> {
        match self {
            DnsRecordType::All => seq![
                DnsRecordType::A,
                DnsRecordType::Aaaa,
                DnsRecordType::Mx,
                DnsRecordType::Txt,
                DnsRecordType::Ns,
                DnsRecordType::Cname,
            ],
            t => seq![t],
        }
    }

    /// The record types queried: `All` stands for A, AAAA, MX, TXT, NS and
    /// CNAME; any other type for itself.
    pub fn expand(&self) -> (r: Vec<DnsRecordType>)
        ensures
            r@ == self.expand_spec(),
    {
        let mut v: Vec<DnsRecordType> = Vec::new();
        match self {
            DnsRecordType::All => {
                v.push(DnsRecordType::A);
                v.push(DnsRecordType::Aaaa);
                v.push(DnsRecordType::Mx);
                v.push(DnsRecordType::Txt);
                v.push(DnsRecordType::Ns);
                v.push(DnsRecordType::Cname);
            },
            t => {
                v.push(*t);
            },
        }
        assert(v@ =~= self.expand_spec());
        v
    }
}

/// Options of `diag mtu`.
#[derive(Debug, Clone)]
pub struct MtuArgs {
    pub target: String,
    pub min_mtu: u16,
    pub max_mtu: u16,
    pub timeout: u64,
    pub output: Option<String>,
}

#[derive(Debug, Clone, Copy, PartialEq, Eq, Structural)]
pub enum TrafficMode {
    Send,
    Echo,
    Recv,
}

impl Default for TrafficMode {
    fn default() -> (r: Self)
        ensures
            r == TrafficMode::Echo,
    {
        TrafficMode::Echo
    }
}

#[derive(Debug, Clone, Copy, PartialEq, Eq, Structural)]
pub enum Protocol {
    Tcp,
    Udp,
}

impl Default for Protocol {
    fn default() -> (r: Self)
        ensures
            r == Protocol::Tcp,
    {
        Protocol::Tcp
    }
}

/// Options of `load http`.
#[derive(Debug, Clone)]
pub struct HttpArgs {
    pub url: String,
    pub method: String,
    pub headers: Vec<String>,
    pub body: Option<String>,
    pub duration: u64,
    pub concurrency: usize,
    pub rate: Option<u64>,
    pub insecure: bool,
    pub follow_redirects: bool,
    pub timeout: u64,
    pub http2: bool,
    pub output: Option<String>,
}

/// Options of `profile show`.
#[derive(Debug, Clone)]
pub struct ShowArgs {
    pub name: String,
}

/// Options of `profile delete`.
#[derive(Debug, Clone)]
pub struct DeleteArgs {
    pub name: String,
    pub force: bool,
}

/// Options of `profile export`.
#[derive(Debug, Clone)]
pub struct ExportArgs {
    pub name: String,
    pub output: Option<String>,
}

/// Options of `profile import`.
#[derive(Debug, Clone)]
pub struct ImportArgs {
    pub file: String,
    pub name: Option<String>,
}

/// Subcommands of `profile`.
#[derive(Debug, Clone)]
pub enum ProfileCommands {
    List,
    Show(ShowArgs),
    Delete(DeleteArgs),
    Export(ExportArgs),
    Import(ImportArgs),
}

/// What `profile list` shows of a stored profile.
#[derive(Debug, Clone)]
pub struct ProfileInfo {
    pub name: String,
    pub description: String,
    pub command_type: String,
    pub subcommand_type: String,
    pub updated_at: String,
}

} // verus!
