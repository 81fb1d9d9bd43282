//! Server configuration: defaults and derived values.  Reading the
//! environment is the embedding layer's work; it fills these structures
//! field by field.

use vstd::prelude::*;

use crate::strutil::{fmt_u64, spec_digits};

verus! {

/// Settings of the execution sandbox.
#[derive(Debug, Clone)]
pub struct SandboxConfig {
    pub enabled: bool,
    pub default_workspace: String,
    pub allow_network: bool,
    pub max_memory: Option<String>,
    pub max_cpu: Option<i32>,
    pub timeout: Option<u64>,
}

impl Default for SandboxConfig {
    fn default() -> (c: Self)
        ensures
            c.enabled,
            c.default_workspace@ == "/tmp/agentflow/workspace"@,
            !c.allow_network,
            c.max_memory matches Some(m) && m@ == "1G"@,
            c.max_cpu == Some(2i32),
            c.timeout == Some(300u64),
    {
        SandboxConfig {
            enabled: true,
            default_workspace: String::from_str("/tmp/agentflow/workspace"),
            allow_network: false,
            max_memory: Some(String::from_str("1G")),
            max_cpu: Some(2),
            timeout: Some(300),
        }
    }
}

/// Settings of the memory store.
#[derive(Debug, Clone)]
pub struct MemoryConfig {
    /// Which backing store realizes the capability surface.
    pub backend: String,
    pub database_url: Option<String>,
    pub redis_url: Option<String>,
    /// TTL in seconds applied when a write names none.
    pub default_ttl: u64,
    /// Soft bound on the entry count.
    pub max_entries: usize,
    pub enable_persistence: bool,
}

impl Default for MemoryConfig {
    fn default() -> (c: Self)
        ensures
            c.backend@ == "memory"@,
            c.database_url matches Some(u) && u@ == "sqlite://agentflow_memory.db"@,
            c.redis_url is None,
            c.default_ttl == 3600,
            c.max_entries == 10000,
            !c.enable_persistence,
    {
        MemoryConfig {
            backend: String::from_str("memory"),
            database_url: Some(String::from_str("sqlite://agentflow_memory.db")),
            redis_url: None,
            default_ttl: 3600,
            max_entries: 10000,
            enable_persistence: false,
        }
    }
}

/// Settings of the whole server.
#[derive(Debug, Clone)]
pub struct MasterConfig {
    pub server_addr: String,
    pub server_port: u16,
    pub database_url: String,
    pub sandbox: SandboxConfig,
    pub memory: MemoryConfig,
    pub log_level: String,
    /// Worker heartbeat timeout, in seconds.
    pub worker_heartbeat_timeout: u64,
    /// Task execution timeout, in seconds.
    pub task_timeout: u64,
    /// The concurrency ceiling.
    pub max_concurrent_tasks: usize,
}

impl Default for MasterConfig {
    fn default() -> (c: Self)
        ensures
            c.server_addr@ == "0.0.0.0"@,
            c.server_port == 6767,
            c.database_url@ == "sqlite://agentflow.db"@,
            c.log_level@ == "info"@,
            c.worker_heartbeat_timeout == 60,
            c.task_timeout == 300,
            c.max_concurrent_tasks == 10,
    {
        MasterConfig {
            server_addr: String::from_str("0.0.0.0"),
            server_port: 6767,
            database_url: String::from_str("sqlite://agentflow.db"),
            sandbox: SandboxConfig::default(),
            memory: MemoryConfig::default(),
            log_level: String::from_str("info"),
            worker_heartbeat_timeout: 60,
            task_timeout: 300,
            max_concurrent_tasks: 10,
        }
    }
}

impl MasterConfig {
    /// The bind address: the server address, a colon, and the port in
    /// decimal.
    pub fn bind_address(&self) -> (r: String)
        ensures
            r@ == self.server_addr@ + seq![':'] + spec_digits(self.server_port as nat),
    {
        proof {
            reveal_strlit(":");
        }
        let port = fmt_u64(self.server_port as u64);
        let r = self.server_addr.clone().concat(":").concat(port.as_str());
        proof {
            assert(r@ =~= self.server_addr@ + seq![':'] + spec_digits(
                self.server_port as nat,
            ));
        }
        r
    }
}

} // verus!
