//! Network diagnostics and load-testing library: the verified core of the
//! `nelst` tool. It holds the statistics kernel (percentiles, outliers,
//! histograms, jitter, throughput), port-list parsing, scan result
//! interpretation and probe packets, the path-MTU search and traceroute
//! state machines, service identification, HTTP load rules, TLS inspection
//! records, profiles, report rendering and the error taxonomy. Sockets,
//! timers and tasks live in the program around it.

pub mod error;
pub mod stats;
pub mod text;
pub mod ports;
pub mod scan;
pub mod packet;
pub mod mtu;
pub mod bench;
pub mod measure;
pub mod config;
pub mod output;
pub mod args;
pub mod schedule;
pub mod http;
pub mod service;
pub mod trace;
pub mod dns;
pub mod profile;
pub mod ssl;
pub mod report;
pub mod summary;
