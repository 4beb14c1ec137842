//! Defaults of the configuration file sections.

use vstd::prelude::*;

verus! {

pub fn default_timeout() -> (r: u64)
    ensures
        r == 5000,
{
    5000
}

pub fn default_protocol() -> (r: String)
    ensures
        r@ == "tcp"@,
{
    String::from_str("tcp")
}

pub fn default_concurrency() -> (r: usize)
    ensures
        r == 10,
{
    10
}

pub fn default_duration() -> (r: u64)
    ensures
        r == 60,
{
    60
}

pub fn default_size() -> (r: usize)
    ensures
        r == 1024,
{
    1024
}

pub fn default_method() -> (r: String)
    ensures
        r@ == "tcp"@,
{
    String::from_str("tcp")
}

pub fn default_ports() -> (r: String)
    ensures
        r@ == "1-1024"@,
{
    String::from_str("1-1024")
}

pub fn default_scan_concurrency() -> (r: usize)
    ensures
        r == 100,
{
    100
}

pub fn default_scan_timeout() -> (r: u64)
    ensures
        r == 1000,
{
    1000
}

pub fn default_bind() -> (r: String)
    ensures
        r@ == "0.0.0.0:8080"@,
{
    String::from_str("0.0.0.0:8080")
}

/// `[defaults]`: verbosity and the default timeout in milliseconds.
#[derive(Debug, Clone)]
pub struct DefaultsConfig {
    pub verbose: bool,
    pub timeout: u64,
}

impl Default for DefaultsConfig {
    fn default() -> (r: Self)
        ensures
            !r.verbose,
            r.timeout == 5000,
    {
        DefaultsConfig { verbose: false, timeout: default_timeout() }
    }
}

/// `[load]`: defaults of the load tests.
#[derive(Debug, Clone)]
pub struct LoadConfig {
    pub protocol: String,
    pub concurrency: usize,
    pub duration: u64,
    pub size: usize,
}

impl Default for LoadConfig {
    fn default() -> (r: Self)
        ensures
            r.protocol@ == "tcp"@,
            r.concurrency == 10,
            r.duration == 60,
            r.size == 1024,
    {
        LoadConfig {
            protocol: default_protocol(),
            concurrency: default_concurrency(),
            duration: default_duration(),
            size: default_size(),
        }
    }
}

/// `[scan]`: defaults of the port scan.
#[derive(Debug, Clone)]
pub struct ScanConfig {
    pub method: String,
    pub ports: String,
    pub concurrency: usize,
    pub timeout: u64,
}

impl Default for ScanConfig {
    fn default() -> (r: Self)
        ensures
            r.method@ == "tcp"@,
            r.ports@ == "1-1024"@,
            r.concurrency == 100,
            r.timeout == 1000,
    {
        ScanConfig {
            method: default_method(),
            ports: default_ports(),
            concurrency: default_scan_concurrency(),
            timeout: default_scan_timeout(),
        }
    }
}

/// `[server]`: defaults of the test servers.
#[derive(Debug, Clone)]
pub struct ServerConfig {
    pub bind: String,
    pub protocol: String,
}

impl Default for ServerConfig {
    fn default() -> (r: Self)
        ensures
            r.bind@ == "0.0.0.0:8080"@,
            r.protocol@ == "tcp"@,
    {
        ServerConfig { bind: default_bind(), protocol: default_protocol() }
    }
}

/// The whole configuration file; a missing section takes its defaults.
#[derive(Debug, Clone)]
pub struct Config {
    pub defaults: DefaultsConfig,
    pub load: LoadConfig,
    pub scan: ScanConfig,
    pub server: ServerConfig,
}

impl Default for Config {
    fn default() -> (r: Self)
        ensures
            !r.defaults.verbose,
            r.defaults.timeout == 5000,
            r.load.protocol@ == "tcp"@,
            r.load.concurrency == 10,
            r.load.duration == 60,
            r.load.size == 1024,
            r.scan.method@ == "tcp"@,
            r.scan.ports@ == "1-1024"@,
            r.scan.concurrency == 100,
            r.scan.timeout == 1000,
            r.server.bind@ == "0.0.0.0:8080"@,
            r.server.protocol@ == "tcp"@,
    {
        Config {
            defaults: DefaultsConfig::default(),
            load: LoadConfig::default(),
            scan: ScanConfig::default(),
            server: ServerConfig::default(),
        }
    }
}

} // verus!
